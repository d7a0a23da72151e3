//! What each transaction makes of the schemes and the assets of a shard.
//!
//! A [`Ledger`] is what a shard holds at one time: the leaves of its trie, and the changes laid
//! over them. Each function here says what a step makes of it, or why the step stops.

use crate::address::{asset_address, is_scheme_hash, scheme_address, zero_suffix_address};
use crate::cache::Overlay;
use crate::db::TrieView;
use crate::error::{refusal, unreadable, Stop, TransactionError, TrieError};
use crate::hash::{script_hash_of, Address, ShardId, H256};
use crate::item::{byte_strings, Asset, AssetScheme, AssetView, OwnedAsset, SchemeView};
use crate::metadata::wrapped_metadata_of;
use crate::pool::{added, amount_in, made, matched, tally};
use crate::script::{
    consents, run_of, scripts_needed, unlocked, ScriptOutcome, ScriptRunView,
};
use crate::transaction::{
    AssetMintOutput, AssetTransferInput, AssetTransferOutput, AssetWrapCCCOutput,
    InnerTransaction, OrderOnTransfer, Transaction,
};
use vstd::prelude::*;

verus! {

/// What a shard holds at one time.
#[verifier::ext_equal]
pub struct Ledger {
    pub shard_id: ShardId,
    pub trie: TrieView,
    pub overlay: Overlay,
}

/// The scheme at an address. A change counts for more than the leaf under it.
pub open spec fn scheme_over(overlay: Overlay, trie: TrieView, address: H256) -> Result<
    Option<SchemeView>,
    TrieError,
> {
    if overlay.schemes.contains_key(address) {
        Ok(overlay.schemes[address])
    } else {
        trie.scheme(address)
    }
}

/// The asset at an address. A change counts for more than the leaf under it.
pub open spec fn asset_over(overlay: Overlay, trie: TrieView, address: H256) -> Result<
    Option<AssetView>,
    TrieError,
> {
    if overlay.assets.contains_key(address) {
        Ok(overlay.assets[address])
    } else {
        trie.asset(address)
    }
}

impl Ledger {
    /// The scheme at an address.
    pub open spec fn scheme(self, address: H256) -> Result<Option<SchemeView>, TrieError> {
        scheme_over(self.overlay, self.trie, address)
    }

    /// The asset at an address.
    pub open spec fn asset(self, address: H256) -> Result<Option<AssetView>, TrieError> {
        asset_over(self.overlay, self.trie, address)
    }

    /// The ledger with a scheme put at an address, or taken away from it.
    pub open spec fn with_scheme(self, address: H256, scheme: Option<SchemeView>) -> Self {
        Ledger {
            overlay: Overlay {
                schemes: self.overlay.schemes.insert(address, scheme),
                ..self.overlay
            },
            ..self
        }
    }

    /// The ledger with an asset put at an address, or taken away from it.
    pub open spec fn with_asset(self, address: H256, asset: Option<AssetView>) -> Self {
        Ledger {
            overlay: Overlay {
                assets: self.overlay.assets.insert(address, asset),
                ..self.overlay
            },
            ..self
        }
    }

    /// The address of the asset that an input spends.
    pub open spec fn spent(self, input: AssetTransferInput) -> H256 {
        asset_address(
            input.prev_out.transaction_hash,
            input.prev_out.index as int,
            self.shard_id,
        )
    }
}

/// The contents of a scheme that was read.
pub open spec fn scheme_read(read: Result<Option<AssetScheme>, TrieError>) -> Result<
    Option<SchemeView>,
    TrieError,
> {
    match read {
        Ok(Some(scheme)) => Ok(Some(scheme@)),
        Ok(None) => Ok(None),
        Err(error) => Err(error),
    }
}

/// The contents of an asset that was read.
pub open spec fn asset_read(read: Result<Option<OwnedAsset>, TrieError>) -> Result<
    Option<AssetView>,
    TrieError,
> {
    match read {
        Ok(Some(asset)) => Ok(Some(asset@)),
        Ok(None) => Ok(None),
        Err(error) => Err(error),
    }
}

/// What was read, where there was something. Where there was nothing, the step stops with
/// `missing`.
pub open spec fn found<T>(read: Result<Option<T>, TrieError>, missing: Stop) -> Result<T, Stop> {
    match read {
        Ok(Some(item)) => Ok(item),
        Ok(None) => Err(missing),
        Err(error) => Err(unreadable(error)),
    }
}

/// Puts an asset at an address.
pub open spec fn create_asset(ledger: Ledger, address: H256, asset: AssetView) -> Result<
    Ledger,
    Stop,
> {
    match ledger.asset(address) {
        Ok(_) => Ok(ledger.with_asset(address, Some(asset))),
        Err(error) => Err(unreadable(error)),
    }
}

/// `sender` may mint in a shard with these users. A shard without users is open to all.
pub open spec fn may_mint(sender: Address, shard_users: Seq<Address>) -> bool {
    shard_users.len() == 0 || shard_users.contains(sender)
}

/// The amount that a mint makes.
pub open spec fn minted_amount(output: AssetMintOutput) -> u64 {
    match output.amount {
        Some(amount) => amount,
        None => u64::MAX,
    }
}

/// Mints a scheme and all of its assets, which lie at index 0.
pub open spec fn mint(
    ledger: Ledger,
    hash: H256,
    metadata: Seq<char>,
    approver: Option<Address>,
    administrator: Option<Address>,
    output: AssetMintOutput,
    sender: Address,
    shard_users: Seq<Address>,
    pool: Seq<Asset>,
) -> Result<Ledger, Stop> {
    let scheme_at = scheme_address(hash, ledger.shard_id);
    let amount = minted_amount(output);
    if !may_mint(sender, shard_users) {
        Err(refusal(TransactionError::InsufficientPermission))
    } else {
        match ledger.scheme(scheme_at) {
            Err(error) => Err(unreadable(error)),
            Ok(Some(_)) => Err(refusal(TransactionError::AssetSchemeDuplicated(hash))),
            Ok(None) => create_asset(
                ledger.with_scheme(
                    scheme_at,
                    Some(SchemeView { metadata, amount, approver, administrator, pool }),
                ),
                asset_address(hash, 0, ledger.shard_id),
                AssetView {
                    asset_type: scheme_at,
                    amount,
                    lock_script_hash: output.lock_script_hash,
                    parameters: byte_strings(output.parameters@),
                    order_hash: None,
                },
            ),
        }
    }
}

/// What a mint leaves, whether or not it comes to its end. Where the address of the assets cannot
/// be read, the scheme is there already.
pub open spec fn mint_leaves(
    ledger: Ledger,
    hash: H256,
    metadata: Seq<char>,
    approver: Option<Address>,
    administrator: Option<Address>,
    output: AssetMintOutput,
    sender: Address,
    shard_users: Seq<Address>,
    pool: Seq<Asset>,
) -> Ledger {
    let scheme_at = scheme_address(hash, ledger.shard_id);
    let amount = minted_amount(output);
    match mint(
        ledger,
        hash,
        metadata,
        approver,
        administrator,
        output,
        sender,
        shard_users,
        pool,
    ) {
        Ok(next) => next,
        Err(_) => if may_mint(sender, shard_users) && ledger.scheme(scheme_at) == Ok::<
            _,
            TrieError,
        >(None::<SchemeView>) {
            ledger.with_scheme(
                scheme_at,
                Some(SchemeView { metadata, amount, approver, administrator, pool }),
            )
        } else {
            ledger
        },
    }
}

/// Checks that an input names an asset that is there as the input says, and that the approver of
/// its scheme, if any, consents.
pub open spec fn input_asset(
    ledger: Ledger,
    input: AssetTransferInput,
    sender: Address,
    approvers: Seq<Address>,
) -> Result<AssetView, Stop> {
    let asset_type = input.prev_out.asset_type;
    let address = ledger.spent(input);
    let no_scheme = refusal(TransactionError::AssetSchemeNotFound(asset_type));
    if !is_scheme_hash(asset_type) {
        Err(no_scheme)
    } else {
        match found(ledger.scheme(asset_type), no_scheme) {
            Err(stop) => Err(stop),
            Ok(scheme) => if scheme.approver is Some && !consents(
                scheme.approver->0,
                sender,
                approvers,
            ) {
                Err(refusal(TransactionError::NotApproved(scheme.approver->0)))
            } else {
                match found(
                    ledger.asset(address),
                    refusal(TransactionError::AssetNotFound(address)),
                ) {
                    Err(stop) => Err(stop),
                    Ok(asset) => if asset.amount != input.prev_out.amount {
                        Err(
                            refusal(
                                TransactionError::InvalidAssetAmount {
                                    address,
                                    expected: asset.amount,
                                    got: input.prev_out.amount,
                                },
                            ),
                        )
                    } else if asset.asset_type != asset_type {
                        Err(refusal(TransactionError::InvalidAssetType(asset_type)))
                    } else {
                        Ok(asset)
                    },
                }
            },
        }
    }
}

/// What has to be run for an input before it may be spent, or `None` where it may be spent as it
/// is.
pub open spec fn script_need(
    ledger: Ledger,
    input: AssetTransferInput,
    order: Option<H256>,
    burn: bool,
    sender: Address,
    approvers: Seq<Address>,
) -> Result<Option<ScriptRunView>, Stop> {
    let address = ledger.spent(input);
    match found(ledger.asset(address), refusal(TransactionError::AssetNotFound(address))) {
        Err(stop) => Err(stop),
        Ok(asset) => if !is_scheme_hash(input.prev_out.asset_type) {
            Err(Stop::OutOfDomain)
        } else {
            match found(ledger.scheme(input.prev_out.asset_type), Stop::OutOfDomain) {
                Err(stop) => Err(stop),
                Ok(scheme) => match scripts_needed(
                    asset,
                    scheme,
                    order,
                    burn,
                    sender,
                    approvers,
                    script_hash_of(input.lock_script@),
                ) {
                    Err(error) => Err(refusal(error)),
                    Ok(false) => Ok(None),
                    Ok(true) => Ok(Some(run_of(asset, input, order, burn))),
                },
            }
        },
    }
}

/// Checks that an input may be spent, where `outcome` is what came of its scripts if they had to
/// be run.
pub open spec fn script_check(
    ledger: Ledger,
    input: AssetTransferInput,
    order: Option<H256>,
    burn: bool,
    sender: Address,
    approvers: Seq<Address>,
    outcome: ScriptOutcome,
) -> Result<(), Stop> {
    match script_need(ledger, input, order, burn, sender, approvers) {
        Err(stop) => Err(stop),
        Ok(None) => Ok(()),
        Ok(Some(_)) => match unlocked(ledger.spent(input), outcome, burn) {
            Ok(()) => Ok(()),
            Err(error) => Err(refusal(error)),
        },
    }
}

/// The order that pays with input `i`: of the first `n` orders, the last that names it.
pub open spec fn order_of_input(orders: Seq<OrderOnTransfer>, n: int, i: int) -> Option<H256>
    decreases n,
{
    if n <= 0 {
        None
    } else if orders[n - 1].input_indices@.contains(i as usize) {
        Some(orders[n - 1].order.hash)
    } else {
        order_of_input(orders, n - 1, i)
    }
}

/// What is left of the order that output `i` stays under: of the first `n` orders, the last that
/// names it.
pub open spec fn order_of_output(orders: Seq<OrderOnTransfer>, n: int, i: int) -> Option<H256>
    decreases n,
{
    if n <= 0 {
        None
    } else if orders[n - 1].output_indices@.contains(i as usize) {
        Some(orders[n - 1].consumed_hash)
    } else {
        order_of_output(orders, n - 1, i)
    }
}

/// All indices are below a bound.
pub open spec fn all_below(indices: Seq<usize>, bound: nat) -> bool {
    forall|i: int| 0 <= i < indices.len() ==> #[trigger] indices[i] < bound
}

/// The orders name inputs that are there.
pub open spec fn inputs_in_range(orders: Seq<OrderOnTransfer>, bound: nat) -> bool {
    forall|o: int|
        0 <= o < orders.len() ==> all_below((#[trigger] orders[o]).input_indices@, bound)
}

/// The orders name outputs that are there.
pub open spec fn outputs_in_range(orders: Seq<OrderOnTransfer>, bound: nat) -> bool {
    forall|o: int|
        0 <= o < orders.len() ==> all_below((#[trigger] orders[o]).output_indices@, bound)
}

/// What is to be spent, with what its scripts are checked under.
#[verifier::ext_equal]
pub struct Spending {
    pub input: AssetTransferInput,
    pub order: Option<H256>,
    pub burn: bool,
}

/// What a transfer spends: its inputs, then its burns. No order pays for a burn.
pub open spec fn transfer_spendings(
    inputs: Seq<AssetTransferInput>,
    burns: Seq<AssetTransferInput>,
    orders: Seq<OrderOnTransfer>,
) -> Seq<Spending> {
    Seq::new(
        inputs.len(),
        |i: int|
            Spending {
                input: inputs[i],
                order: order_of_input(orders, orders.len() as int, i),
                burn: false,
            },
    ) + Seq::new(
        burns.len(),
        |i: int| Spending { input: burns[i], order: None, burn: true },
    )
}

/// What a transaction spends, in the order in which the scripts are checked.
pub open spec fn spendings(transaction: InnerTransaction) -> Seq<Spending> {
    match transaction {
        InnerTransaction::General(Transaction::AssetTransfer { burns, inputs, orders, .. }) =>
            transfer_spendings(inputs@, burns@, orders@),
        InnerTransaction::General(Transaction::AssetCompose { inputs, .. }) => Seq::new(
            inputs@.len(),
            |i: int| Spending { input: inputs@[i], order: None, burn: false },
        ),
        InnerTransaction::General(Transaction::AssetDecompose { input, .. }) => seq![
            Spending { input, order: None, burn: false },
        ],
        InnerTransaction::General(Transaction::AssetUnwrapCCC { burn, .. }) => seq![
            Spending { input: burn, order: None, burn: true },
        ],
        _ => Seq::empty(),
    }
}

/// Whose consent counts when the inputs of a transaction are checked. Wrapped native coin has no
/// approvers.
pub open spec fn effective_approvers(
    transaction: InnerTransaction,
    approvers: Seq<Address>,
) -> Seq<Address> {
    match transaction {
        InnerTransaction::General(Transaction::AssetUnwrapCCC { .. }) => Seq::empty(),
        _ => approvers,
    }
}

/// Checks the scripts of all spendings from `k` on.
pub open spec fn scripts_check(
    ledger: Ledger,
    spendings: Seq<Spending>,
    sender: Address,
    approvers: Seq<Address>,
    outcomes: Seq<ScriptOutcome>,
    k: int,
) -> Result<(), Stop>
    decreases spendings.len() - k,
{
    if k >= spendings.len() {
        Ok(())
    } else {
        match script_check(
            ledger,
            spendings[k].input,
            spendings[k].order,
            spendings[k].burn,
            sender,
            approvers,
            outcomes[k],
        ) {
            Err(stop) => Err(stop),
            Ok(()) => scripts_check(ledger, spendings, sender, approvers, outcomes, k + 1),
        }
    }
}

/// How many inputs of an order from `k` on, added to `count`, come from its origin outputs. The
/// others must lie under the order already.
pub open spec fn origin_count(
    ledger: Ledger,
    order_tx: OrderOnTransfer,
    inputs: Seq<AssetTransferInput>,
    count: int,
    k: int,
) -> Result<int, Stop>
    decreases order_tx.input_indices@.len() - k,
{
    if k >= order_tx.input_indices@.len() {
        Ok(count)
    } else {
        let input = inputs[order_tx.input_indices@[k] as int];
        let address = ledger.spent(input);
        match found(ledger.asset(address), refusal(TransactionError::AssetNotFound(address))) {
            Err(stop) => Err(stop),
            Ok(asset) => if asset.order_hash == Some(order_tx.order.hash) {
                origin_count(ledger, order_tx, inputs, count, k + 1)
            } else if order_tx.order.origin_outputs@.contains(input.prev_out) {
                origin_count(ledger, order_tx, inputs, count + 1, k + 1)
            } else {
                Err(refusal(TransactionError::InvalidOriginOutputs(order_tx.order.hash)))
            },
        }
    }
}

/// Checks the orders from `k` on: an order takes all of its origin outputs at once, or none.
pub open spec fn orders_check(
    ledger: Ledger,
    orders: Seq<OrderOnTransfer>,
    inputs: Seq<AssetTransferInput>,
    k: int,
) -> Result<(), Stop>
    decreases orders.len() - k,
{
    if k >= orders.len() {
        Ok(())
    } else {
        match origin_count(ledger, orders[k], inputs, 0, 0) {
            Err(stop) => Err(stop),
            Ok(count) => if count > 0 && count != orders[k].order.origin_outputs@.len() {
                Err(refusal(TransactionError::InvalidOriginOutputs(orders[k].order.hash)))
            } else {
                orders_check(ledger, orders, inputs, k + 1)
            },
        }
    }
}

/// Checks the assets of all inputs from `k` on, and takes each away.
pub open spec fn consume(
    ledger: Ledger,
    inputs: Seq<AssetTransferInput>,
    sender: Address,
    approvers: Seq<Address>,
    k: int,
) -> Result<Ledger, Stop>
    decreases inputs.len() - k,
{
    if k >= inputs.len() {
        Ok(ledger)
    } else {
        match input_asset(ledger, inputs[k], sender, approvers) {
            Err(stop) => Err(stop),
            Ok(_) => consume(
                ledger.with_asset(ledger.spent(inputs[k]), None),
                inputs,
                sender,
                approvers,
                k + 1,
            ),
        }
    }
}

/// The ledger without the assets of the inputs from `k` on, up to the first that is refused.
pub open spec fn consume_leaves(
    ledger: Ledger,
    inputs: Seq<AssetTransferInput>,
    sender: Address,
    approvers: Seq<Address>,
    k: int,
) -> Ledger
    decreases inputs.len() - k,
{
    if k >= inputs.len() || input_asset(ledger, inputs[k], sender, approvers) is Err {
        ledger
    } else {
        consume_leaves(
            ledger.with_asset(ledger.spent(inputs[k]), None),
            inputs,
            sender,
            approvers,
            k + 1,
        )
    }
}

/// The asset that an output makes, under what is left of an order.
pub open spec fn output_asset(output: AssetTransferOutput, order_hash: Option<H256>) -> AssetView {
    AssetView {
        asset_type: output.asset_type,
        amount: output.amount,
        lock_script_hash: output.lock_script_hash,
        parameters: byte_strings(output.parameters@),
        order_hash,
    }
}

/// Puts the assets of all outputs from `k` on at the addresses of the transaction.
pub open spec fn produce(
    ledger: Ledger,
    hash: H256,
    outputs: Seq<AssetTransferOutput>,
    order_hashes: Seq<Option<H256>>,
    k: int,
) -> Result<Ledger, Stop>
    decreases outputs.len() - k,
{
    if k >= outputs.len() {
        Ok(ledger)
    } else {
        match create_asset(
            ledger,
            asset_address(hash, k, ledger.shard_id),
            output_asset(outputs[k], order_hashes[k]),
        ) {
            Err(stop) => Err(stop),
            Ok(next) => produce(next, hash, outputs, order_hashes, k + 1),
        }
    }
}

/// The ledger with the assets of the outputs from `k` on, up to the first address that cannot be
/// read.
pub open spec fn produce_leaves(
    ledger: Ledger,
    hash: H256,
    outputs: Seq<AssetTransferOutput>,
    order_hashes: Seq<Option<H256>>,
    k: int,
) -> Ledger
    decreases outputs.len() - k,
{
    if k >= outputs.len() {
        ledger
    } else {
        match create_asset(
            ledger,
            asset_address(hash, k, ledger.shard_id),
            output_asset(outputs[k], order_hashes[k]),
        ) {
            Err(_) => ledger,
            Ok(next) => produce_leaves(next, hash, outputs, order_hashes, k + 1),
        }
    }
}

/// Where all addresses of the outputs can be read, all assets are put there.
pub proof fn lemma_produce_succeeds(
    ledger: Ledger,
    hash: H256,
    outputs: Seq<AssetTransferOutput>,
    order_hashes: Seq<Option<H256>>,
    k: int,
)
    requires
        0 <= k <= outputs.len(),
        forall|i: int|
            0 <= i < outputs.len() ==> ledger.asset(
                #[trigger] asset_address(hash, i, ledger.shard_id),
            ) is Ok,
    ensures
        produce(ledger, hash, outputs, order_hashes, k) is Ok,
    decreases outputs.len() - k,
{
    if k < outputs.len() {
        let address = asset_address(hash, k, ledger.shard_id);
        let next = ledger.with_asset(address, Some(output_asset(outputs[k], order_hashes[k])));
        assert(ledger.asset(address) is Ok);
        assert forall|i: int| 0 <= i < outputs.len() implies next.asset(
            #[trigger] asset_address(hash, i, next.shard_id),
        ) is Ok by {
            assert(ledger.asset(asset_address(hash, i, ledger.shard_id)) is Ok);
        }
        lemma_produce_succeeds(next, hash, outputs, order_hashes, k + 1);
    }
}

/// The order hashes of the outputs of a transfer.
pub open spec fn output_order_hashes(orders: Seq<OrderOnTransfer>, count: nat) -> Seq<
    Option<H256>,
> {
    Seq::new(count, |i: int| order_of_output(orders, orders.len() as int, i))
}

/// No order hash for any of the outputs.
pub open spec fn no_order_hashes(count: nat) -> Seq<Option<H256>> {
    Seq::new(count, |i: int| None)
}

/// Spends inputs and burns, and makes outputs.
pub open spec fn transfer(
    ledger: Ledger,
    hash: H256,
    burns: Seq<AssetTransferInput>,
    inputs: Seq<AssetTransferInput>,
    outputs: Seq<AssetTransferOutput>,
    orders: Seq<OrderOnTransfer>,
    sender: Address,
    approvers: Seq<Address>,
    outcomes: Seq<ScriptOutcome>,
) -> Result<Ledger, Stop> {
    if !inputs_in_range(orders, inputs.len()) {
        Err(Stop::OutOfDomain)
    } else {
        match scripts_check(
            ledger,
            transfer_spendings(inputs, burns, orders),
            sender,
            approvers,
            outcomes,
            0,
        ) {
            Err(stop) => Err(stop),
            Ok(()) => match orders_check(ledger, orders, inputs, 0) {
                Err(stop) => Err(stop),
                Ok(()) => if !outputs_in_range(orders, outputs.len()) {
                    Err(Stop::OutOfDomain)
                } else {
                    match consume(ledger, inputs + burns, sender, approvers, 0) {
                        Err(stop) => Err(stop),
                        Ok(next) => produce(
                            next,
                            hash,
                            outputs,
                            output_order_hashes(orders, outputs.len()),
                            0,
                        ),
                    }
                },
            },
        }
    }
}

/// What a transfer leaves, whether or not it comes to its end. Nothing changes before the scripts
/// and the orders are checked.
pub open spec fn transfer_leaves(
    ledger: Ledger,
    hash: H256,
    burns: Seq<AssetTransferInput>,
    inputs: Seq<AssetTransferInput>,
    outputs: Seq<AssetTransferOutput>,
    orders: Seq<OrderOnTransfer>,
    sender: Address,
    approvers: Seq<Address>,
    outcomes: Seq<ScriptOutcome>,
) -> Ledger {
    let checked = inputs_in_range(orders, inputs.len()) && scripts_check(
        ledger,
        transfer_spendings(inputs, burns, orders),
        sender,
        approvers,
        outcomes,
        0,
    ) is Ok && orders_check(ledger, orders, inputs, 0) is Ok && outputs_in_range(
        orders,
        outputs.len(),
    );
    if !checked {
        ledger
    } else {
        match consume(ledger, inputs + burns, sender, approvers, 0) {
            Err(_) => consume_leaves(ledger, inputs + burns, sender, approvers, 0),
            Ok(next) => produce_leaves(
                next,
                hash,
                outputs,
                output_order_hashes(orders, outputs.len()),
                0,
            ),
        }
    }
}

/// Changes the metadata, the approver and the administrator of a scheme.
pub open spec fn change_scheme(
    ledger: Ledger,
    asset_type: H256,
    metadata: Seq<char>,
    approver: Option<Address>,
    administrator: Option<Address>,
    sender: Address,
    approvers: Seq<Address>,
) -> Result<Ledger, Stop> {
    let no_scheme = refusal(TransactionError::AssetSchemeNotFound(asset_type));
    if !is_scheme_hash(asset_type) {
        Err(no_scheme)
    } else {
        match found(ledger.scheme(asset_type), no_scheme) {
            Err(stop) => Err(stop),
            Ok(scheme) => if scheme.administrator is None || !consents(
                scheme.administrator->0,
                sender,
                approvers,
            ) {
                Err(refusal(TransactionError::InsufficientPermission))
            } else {
                Ok(
                    ledger.with_scheme(
                        asset_type,
                        Some(SchemeView { metadata, approver, administrator, ..scheme }),
                    ),
                )
            },
        }
    }
}

/// A ledger whose assets from some inputs have been taken away, and what they add up to.
#[verifier::ext_equal]
pub struct Gathered {
    pub ledger: Ledger,
    pub sum: Seq<Asset>,
}

/// An input may go into a composition: its asset and its scripts are in order, and it is not under
/// an administrator.
pub open spec fn is_composable(
    ledger: Ledger,
    input: AssetTransferInput,
    sender: Address,
    approvers: Seq<Address>,
    outcome: ScriptOutcome,
) -> bool {
    &&& input_asset(ledger, input, sender, approvers) is Ok
    &&& script_check(ledger, input, None, false, sender, approvers, outcome) is Ok
    &&& ledger.scheme(input.prev_out.asset_type) matches Ok(Some(scheme))
        && scheme.administrator is None
}

/// Checks all inputs of a composition from `k` on, takes each away and adds it up.
pub open spec fn gather(
    gathered: Gathered,
    inputs: Seq<AssetTransferInput>,
    sender: Address,
    approvers: Seq<Address>,
    outcomes: Seq<ScriptOutcome>,
    k: int,
) -> Result<Gathered, Stop>
    decreases inputs.len() - k,
{
    let ledger = gathered.ledger;
    if k >= inputs.len() {
        Ok(gathered)
    } else {
        let asset_type = inputs[k].prev_out.asset_type;
        let amount = inputs[k].prev_out.amount;
        match input_asset(ledger, inputs[k], sender, approvers) {
            Err(stop) => Err(stop),
            Ok(_) => match script_check(
                ledger,
                inputs[k],
                None,
                false,
                sender,
                approvers,
                outcomes[k],
            ) {
                Err(stop) => Err(stop),
                Ok(()) => match found(ledger.scheme(asset_type), Stop::OutOfDomain) {
                    Err(stop) => Err(stop),
                    Ok(scheme) => if scheme.administrator is Some {
                        Err(refusal(TransactionError::CannotComposeCentralizedAsset))
                    } else if amount_in(gathered.sum, asset_type) + amount > u64::MAX {
                        Err(Stop::OutOfDomain)
                    } else {
                        gather(
                            Gathered {
                                ledger: ledger.with_asset(ledger.spent(inputs[k]), None),
                                sum: added(gathered.sum, asset_type, amount),
                            },
                            inputs,
                            sender,
                            approvers,
                            outcomes,
                            k + 1,
                        )
                    },
                },
            },
        }
    }
}

/// The ledger without the assets of the inputs of a composition from `k` on, up to the first that
/// is refused.
pub open spec fn gather_leaves(
    gathered: Gathered,
    inputs: Seq<AssetTransferInput>,
    sender: Address,
    approvers: Seq<Address>,
    outcomes: Seq<ScriptOutcome>,
    k: int,
) -> Ledger
    decreases inputs.len() - k,
{
    let ledger = gathered.ledger;
    if k >= inputs.len() || !is_composable(ledger, inputs[k], sender, approvers, outcomes[k]) {
        ledger
    } else {
        let asset_type = inputs[k].prev_out.asset_type;
        let amount = inputs[k].prev_out.amount;
        let next = ledger.with_asset(ledger.spent(inputs[k]), None);
        if amount_in(gathered.sum, asset_type) + amount > u64::MAX {
            next
        } else {
            gather_leaves(
                Gathered { ledger: next, sum: added(gathered.sum, asset_type, amount) },
                inputs,
                sender,
                approvers,
                outcomes,
                k + 1,
            )
        }
    }
}

/// Mints a scheme whose pool is what the inputs add up to.
pub open spec fn compose(
    ledger: Ledger,
    hash: H256,
    metadata: Seq<char>,
    approver: Option<Address>,
    administrator: Option<Address>,
    inputs: Seq<AssetTransferInput>,
    output: AssetMintOutput,
    sender: Address,
    shard_users: Seq<Address>,
    approvers: Seq<Address>,
    outcomes: Seq<ScriptOutcome>,
) -> Result<Ledger, Stop> {
    match gather(
        Gathered { ledger, sum: Seq::empty() },
        inputs,
        sender,
        approvers,
        outcomes,
        0,
    ) {
        Err(stop) => Err(stop),
        Ok(gathered) => mint(
            gathered.ledger,
            hash,
            metadata,
            approver,
            administrator,
            output,
            sender,
            shard_users,
            gathered.sum,
        ),
    }
}

/// What a composition leaves, whether or not it comes to its end.
pub open spec fn compose_leaves(
    ledger: Ledger,
    hash: H256,
    metadata: Seq<char>,
    approver: Option<Address>,
    administrator: Option<Address>,
    inputs: Seq<AssetTransferInput>,
    output: AssetMintOutput,
    sender: Address,
    shard_users: Seq<Address>,
    approvers: Seq<Address>,
    outcomes: Seq<ScriptOutcome>,
) -> Ledger {
    let start = Gathered { ledger, sum: Seq::empty() };
    match gather(start, inputs, sender, approvers, outcomes, 0) {
        Err(_) => gather_leaves(start, inputs, sender, approvers, outcomes, 0),
        Ok(gathered) => mint_leaves(
            gathered.ledger,
            hash,
            metadata,
            approver,
            administrator,
            output,
            sender,
            shard_users,
            gathered.sum,
        ),
    }
}

/// Checks that the outputs are what the scheme of a composed asset has in its pool.
pub open spec fn pool_check(
    ledger: Ledger,
    asset_type: H256,
    outputs: Seq<AssetTransferOutput>,
) -> Result<(), Stop> {
    let no_scheme = refusal(TransactionError::AssetSchemeNotFound(asset_type));
    if !is_scheme_hash(asset_type) {
        Err(no_scheme)
    } else {
        match found(ledger.scheme(asset_type), no_scheme) {
            Err(stop) => Err(stop),
            Ok(scheme) => if scheme.pool.len() == 0 {
                Err(
                    refusal(
                        TransactionError::InvalidDecomposedInput { address: asset_type, got: 0 },
                    ),
                )
            } else {
                match tally(made(outputs), Seq::empty(), 0) {
                    None => Err(Stop::OutOfDomain),
                    Some(sum) => match matched(scheme.pool, sum) {
                        Err(error) => Err(refusal(error)),
                        Ok(()) => Ok(()),
                    },
                }
            },
        }
    }
}

/// Takes a composed asset and its scheme away, and makes the assets of its pool again.
pub open spec fn decompose(
    ledger: Ledger,
    hash: H256,
    input: AssetTransferInput,
    outputs: Seq<AssetTransferOutput>,
    sender: Address,
    approvers: Seq<Address>,
    outcome: ScriptOutcome,
) -> Result<Ledger, Stop> {
    match pool_check(ledger, input.prev_out.asset_type, outputs) {
        Err(stop) => Err(stop),
        Ok(()) => match input_asset(ledger, input, sender, approvers) {
            Err(stop) => Err(stop),
            Ok(_) => match script_check(ledger, input, None, false, sender, approvers, outcome) {
                Err(stop) => Err(stop),
                Ok(()) => produce(
                    ledger.with_asset(ledger.spent(input), None).with_scheme(
                        input.prev_out.asset_type,
                        None,
                    ),
                    hash,
                    outputs,
                    no_order_hashes(outputs.len()),
                    0,
                ),
            },
        },
    }
}

/// What a decomposition leaves, whether or not it comes to its end. Nothing changes before all is
/// checked.
pub open spec fn decompose_leaves(
    ledger: Ledger,
    hash: H256,
    input: AssetTransferInput,
    outputs: Seq<AssetTransferOutput>,
    sender: Address,
    approvers: Seq<Address>,
    outcome: ScriptOutcome,
) -> Ledger {
    let checked = pool_check(ledger, input.prev_out.asset_type, outputs) is Ok && input_asset(
        ledger,
        input,
        sender,
        approvers,
    ) is Ok && script_check(ledger, input, None, false, sender, approvers, outcome) is Ok;
    if !checked {
        ledger
    } else {
        produce_leaves(
            ledger.with_asset(ledger.spent(input), None).with_scheme(
                input.prev_out.asset_type,
                None,
            ),
            hash,
            outputs,
            no_order_hashes(outputs.len()),
            0,
        )
    }
}

/// The scheme of the wrapped native coin of a shard.
pub open spec fn wrapped_scheme(shard_id: ShardId) -> SchemeView {
    SchemeView {
        metadata: wrapped_metadata_of(shard_id),
        amount: u64::MAX,
        approver: None,
        administrator: None,
        pool: Seq::empty(),
    }
}

/// Makes wrapped native coin, and its scheme where there is none yet.
pub open spec fn wrap(ledger: Ledger, parcel_hash: H256, output: AssetWrapCCCOutput) -> Result<
    Ledger,
    Stop,
> {
    let scheme_at = zero_suffix_address(ledger.shard_id);
    match ledger.scheme(scheme_at) {
        Err(error) => Err(unreadable(error)),
        Ok(scheme) => create_asset(
            if scheme is None {
                ledger.with_scheme(scheme_at, Some(wrapped_scheme(ledger.shard_id)))
            } else {
                ledger
            },
            asset_address(parcel_hash, 0, ledger.shard_id),
            AssetView {
                asset_type: scheme_at,
                amount: output.amount,
                lock_script_hash: output.lock_script_hash,
                parameters: byte_strings(output.parameters@),
                order_hash: None,
            },
        ),
    }
}

/// What wrapping leaves, whether or not it comes to its end. Where the address of the asset cannot
/// be read, the scheme is there already.
pub open spec fn wrap_leaves(
    ledger: Ledger,
    parcel_hash: H256,
    output: AssetWrapCCCOutput,
) -> Ledger {
    let scheme_at = zero_suffix_address(ledger.shard_id);
    match wrap(ledger, parcel_hash, output) {
        Ok(next) => next,
        Err(_) => if ledger.scheme(scheme_at) == Ok::<_, TrieError>(None::<SchemeView>) {
            ledger.with_scheme(scheme_at, Some(wrapped_scheme(ledger.shard_id)))
        } else {
            ledger
        },
    }
}

/// Takes wrapped native coin away.
pub open spec fn unwrap(
    ledger: Ledger,
    burn: AssetTransferInput,
    sender: Address,
    outcome: ScriptOutcome,
) -> Result<Ledger, Stop> {
    match script_check(ledger, burn, None, true, sender, Seq::empty(), outcome) {
        Err(stop) => Err(stop),
        Ok(()) => match input_asset(ledger, burn, sender, Seq::empty()) {
            Err(stop) => Err(stop),
            Ok(_) => Ok(ledger.with_asset(ledger.spent(burn), None)),
        },
    }
}

/// What a transaction makes of a ledger, where `outcomes` holds what came of the scripts of each
/// of its spendings.
pub open spec fn applied(
    ledger: Ledger,
    transaction: InnerTransaction,
    sender: Address,
    shard_users: Seq<Address>,
    approvers: Seq<Address>,
    outcomes: Seq<ScriptOutcome>,
) -> Result<Ledger, Stop> {
    match transaction {
        InnerTransaction::General(
            Transaction::AssetMint { hash, metadata, approver, administrator, output },
        ) => mint(
            ledger,
            hash,
            metadata@,
            approver,
            administrator,
            output,
            sender,
            shard_users,
            Seq::empty(),
        ),
        InnerTransaction::General(
            Transaction::AssetTransfer { hash, burns, inputs, outputs, orders },
        ) => transfer(
            ledger,
            hash,
            burns@,
            inputs@,
            outputs@,
            orders@,
            sender,
            approvers,
            outcomes,
        ),
        InnerTransaction::General(
            Transaction::AssetSchemeChange { asset_type, metadata, approver, administrator, .. },
        ) => change_scheme(
            ledger,
            asset_type,
            metadata@,
            approver,
            administrator,
            sender,
            approvers,
        ),
        InnerTransaction::General(
            Transaction::AssetCompose { hash, metadata, approver, administrator, inputs, output },
        ) => compose(
            ledger,
            hash,
            metadata@,
            approver,
            administrator,
            inputs@,
            output,
            sender,
            shard_users,
            approvers,
            outcomes,
        ),
        InnerTransaction::General(Transaction::AssetDecompose { hash, input, outputs }) =>
            decompose(ledger, hash, input, outputs@, sender, approvers, outcomes[0]),
        InnerTransaction::General(Transaction::AssetUnwrapCCC { burn, .. }) => unwrap(
            ledger,
            burn,
            sender,
            outcomes[0],
        ),
        InnerTransaction::AssetWrapCCC { parcel_hash, output } => wrap(
            ledger,
            parcel_hash,
            output,
        ),
    }
}

/// What the work on a transaction leaves, whether or not it comes to its end.
pub open spec fn applied_leaves(
    ledger: Ledger,
    transaction: InnerTransaction,
    sender: Address,
    shard_users: Seq<Address>,
    approvers: Seq<Address>,
    outcomes: Seq<ScriptOutcome>,
) -> Ledger {
    match transaction {
        InnerTransaction::General(
            Transaction::AssetMint { hash, metadata, approver, administrator, output },
        ) => mint_leaves(
            ledger,
            hash,
            metadata@,
            approver,
            administrator,
            output,
            sender,
            shard_users,
            Seq::empty(),
        ),
        InnerTransaction::General(
            Transaction::AssetTransfer { hash, burns, inputs, outputs, orders },
        ) => transfer_leaves(
            ledger,
            hash,
            burns@,
            inputs@,
            outputs@,
            orders@,
            sender,
            approvers,
            outcomes,
        ),
        InnerTransaction::General(
            Transaction::AssetCompose { hash, metadata, approver, administrator, inputs, output },
        ) => compose_leaves(
            ledger,
            hash,
            metadata@,
            approver,
            administrator,
            inputs@,
            output,
            sender,
            shard_users,
            approvers,
            outcomes,
        ),
        InnerTransaction::General(Transaction::AssetDecompose { hash, input, outputs }) =>
            decompose_leaves(ledger, hash, input, outputs@, sender, approvers, outcomes[0]),
        InnerTransaction::AssetWrapCCC { parcel_hash, output } => wrap_leaves(
            ledger,
            parcel_hash,
            output,
        ),
        _ => match applied(ledger, transaction, sender, shard_users, approvers, outcomes) {
            Ok(next) => next,
            Err(_) => ledger,
        },
    }
}

/// The orders of a transaction name inputs that are there.
pub open spec fn orders_name_inputs(transaction: InnerTransaction) -> bool {
    match transaction {
        InnerTransaction::General(Transaction::AssetTransfer { inputs, orders, .. }) =>
            inputs_in_range(orders@, inputs@.len()),
        _ => true,
    }
}

/// What has to be run for the spending at `k` of a transaction, if anything.
pub open spec fn asked(
    ledger: Ledger,
    transaction: InnerTransaction,
    sender: Address,
    approvers: Seq<Address>,
    k: int,
) -> Option<ScriptRunView> {
    let spending = spendings(transaction)[k];
    if !orders_name_inputs(transaction) {
        None
    } else {
        match script_need(
            ledger,
            spending.input,
            spending.order,
            spending.burn,
            sender,
            effective_approvers(transaction, approvers),
        ) {
            Ok(run) => run,
            Err(_) => None,
        }
    }
}

} // verus!
