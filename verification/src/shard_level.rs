//! The state of a shard, and how transactions change it.

use crate::address::{asset_address, AssetSchemeAddress, OwnedAssetAddress};
use crate::cache::{Entry, ShardCache};
use crate::db::{StateDB, TrieView, BLAKE_NULL_RLP};
use crate::error::{
    fail_read, refuse, Invoice, StateError, StateResult, Stop, TransactionError, TrieError,
};
use crate::hash::{contains_address, script_hash, Address, ShardId, H160, H256};
use crate::item::{
    byte_strings, copy_byte_strings, Asset, AssetScheme, AssetView, OwnedAsset, SchemeView,
};
use crate::ledger::{
    applied, applied_leaves, asked, asset_over, change_scheme, compose, compose_leaves, consume,
    consume_leaves, decompose, decompose_leaves, gather, gather_leaves, input_asset,
    inputs_in_range, is_composable, lemma_produce_succeeds, mint, mint_leaves, order_of_input,
    orders_check, origin_count, pool_check, produce, produce_leaves, scheme_over, script_check,
    script_need, scripts_check, spendings, transfer, transfer_leaves, transfer_spendings, unwrap,
    wrap, wrap_leaves, Gathered, Ledger,
};
use crate::metadata::wrapped_metadata;
use crate::orders::{empty_slots, input_orders, output_orders};
use crate::pool::{add_to_pool, match_pool, tally_outputs};
use crate::script::{
    has_consent, judge, need_scripts, run_of, script_run, ScriptOutcome, ScriptRun, ScriptRunView,
};
use crate::traits::{read_asset, read_scheme, ShardStateView};
use crate::transaction::{
    contains_out_point, AssetMintOutput, AssetTransferInput, AssetTransferOutput,
    AssetWrapCCCOutput, InnerTransaction, OrderOnTransfer, Transaction,
};
use vstd::prelude::*;

verus! {

/// The name of a checkpoint.
pub type CheckpointId = usize;

/// The name of the checkpoint that is set before a transaction is applied.
pub const TRANSACTION_CHECKPOINT: CheckpointId = 456;

/// The state of a shard: a trie, and a cache of the changes made since.
pub struct ShardLevelState<'db> {
    pub db: &'db StateDB,
    pub root: H256,
    pub cache: &'db mut ShardCache,
    pub id_of_checkpoints: Vec<CheckpointId>,
    pub shard_id: ShardId,
}

/// The state of a shard that can only be read.
pub struct ReadOnlyShardLevelState<'db> {
    pub db: &'db StateDB,
    pub root: H256,
    pub cache: ShardCache,
}

impl<'db> ShardLevelState<'db> {
    /// The trie is at hand, and the cache has a checkpoint for each that was set here.
    pub open spec fn wf(&self) -> bool {
        &&& self.db.wf()
        &&& self.db@.contains_key(self.root)
        &&& self.cache.wf()
        &&& self.id_of_checkpoints@.len() <= self.cache@.saved.len()
    }

    /// What the shard holds.
    pub open spec fn ledger(&self) -> Ledger {
        Ledger {
            shard_id: self.shard_id,
            trie: self.db@[self.root],
            overlay: self.cache@.current,
        }
    }

    /// The two states differ at most in the changes in force.
    pub open spec fn same_base(&self, other: &Self) -> bool {
        &&& self.db@ == other.db@
        &&& self.root == other.root
        &&& self.shard_id == other.shard_id
        &&& self.id_of_checkpoints@ == other.id_of_checkpoints@
        &&& self.cache@.saved == other.cache@.saved
    }

    /// Creates new state with empty state root
    pub fn try_new(shard_id: ShardId, db: &'db StateDB, cache: &'db mut ShardCache) -> (state:
        StateResult<Self>)
        requires
            db.wf(),
            old(cache).wf(),
        ensures
            match state {
                Ok(s) => {
                    &&& s.wf()
                    &&& s.db@ == db@
                    &&& s.root == H256(BLAKE_NULL_RLP)
                    &&& s.ledger().trie == TrieView::empty()
                    &&& *s.cache == *old(cache)
                    &&& *final(s.cache) == *final(cache)
                    &&& s.id_of_checkpoints@.len() == 0
                    &&& s.shard_id == shard_id
                },
                Err(_) => false,
            },
    {
        let root = H256(BLAKE_NULL_RLP);
        proof {
            db.lemma_null_root();
        }
        Ok(ShardLevelState { db, root, cache, id_of_checkpoints: Vec::new(), shard_id })
    }

    /// Creates new state with existing state root
    pub fn from_existing(
        shard_id: ShardId,
        db: &'db StateDB,
        root: H256,
        cache: &'db mut ShardCache,
    ) -> (state: Result<Self, TrieError>)
        requires
            db.wf(),
            old(cache).wf(),
        ensures
            match state {
                Ok(s) => {
                    &&& db@.contains_key(root)
                    &&& s.wf()
                    &&& s.db@ == db@
                    &&& s.root == root
                    &&& *s.cache == *old(cache)
                    &&& *final(s.cache) == *final(cache)
                    &&& s.id_of_checkpoints@.len() == 0
                    &&& s.shard_id == shard_id
                },
                Err(e) => {
                    &&& !db@.contains_key(root)
                    &&& e == TrieError::InvalidStateRoot(root)
                    &&& *final(cache) == *old(cache)
                },
            },
    {
        if !db.contains(&root) {
            return Err(TrieError::InvalidStateRoot(root));
        }
        Ok(ShardLevelState { db, root, cache, id_of_checkpoints: Vec::new(), shard_id })
    }

    /// Creates immutable shard state
    pub fn read_only(db: &'db StateDB, root: H256, cache: ShardCache) -> (state: Result<
        ReadOnlyShardLevelState<'db>,
        TrieError,
    >)
        requires
            db.wf(),
            cache.wf(),
        ensures
            match state {
                Ok(s) => {
                    &&& db@.contains_key(root)
                    &&& s.wf()
                    &&& s.db@ == db@
                    &&& s.root == root
                    &&& s.cache == cache
                },
                Err(e) => !db@.contains_key(root) && e == TrieError::InvalidStateRoot(root),
            },
    {
        if !db.contains(&root) {
            return Err(TrieError::InvalidStateRoot(root));
        }
        Ok(ReadOnlyShardLevelState { db, root, cache })
    }
}

impl<'db> ReadOnlyShardLevelState<'db> {
    /// The trie is at hand and the cache is in order.
    pub open spec fn wf(&self) -> bool {
        self.db.wf() && self.db@.contains_key(self.root) && self.cache.wf()
    }
}

impl<'db> ShardStateView for ShardLevelState<'db> {
    open spec fn readable(&self) -> bool {
        self.wf()
    }

    open spec fn scheme_at(&self, address: H256) -> Result<Option<SchemeView>, TrieError> {
        self.ledger().scheme(address)
    }

    open spec fn asset_at(&self, address: H256) -> Result<Option<AssetView>, TrieError> {
        self.ledger().asset(address)
    }

    fn asset_scheme(&self, a: &AssetSchemeAddress) -> (scheme: Result<
        Option<AssetScheme>,
        TrieError,
    >) {
        read_scheme(self.db, &self.root, &*self.cache, &a.hash())
    }

    fn asset(&self, a: &OwnedAssetAddress) -> (asset: Result<Option<OwnedAsset>, TrieError>) {
        read_asset(self.db, &self.root, &*self.cache, &a.hash())
    }
}

impl<'db> ShardStateView for ReadOnlyShardLevelState<'db> {
    open spec fn readable(&self) -> bool {
        self.wf()
    }

    open spec fn scheme_at(&self, address: H256) -> Result<Option<SchemeView>, TrieError> {
        scheme_over(self.cache@.current, self.db@[self.root], address)
    }

    open spec fn asset_at(&self, address: H256) -> Result<Option<AssetView>, TrieError> {
        asset_over(self.cache@.current, self.db@[self.root], address)
    }

    fn asset_scheme(&self, a: &AssetSchemeAddress) -> (scheme: Result<
        Option<AssetScheme>,
        TrieError,
    >) {
        read_scheme(self.db, &self.root, &self.cache, &a.hash())
    }

    fn asset(&self, a: &OwnedAssetAddress) -> (asset: Result<Option<OwnedAsset>, TrieError>) {
        read_asset(self.db, &self.root, &self.cache, &a.hash())
    }
}

impl<'db> ShardLevelState<'db> {
    /// Checks that an input names an asset that is there as the input says, and that the approver
    /// of its scheme, if any, consents.
    fn check_input_asset(
        &self,
        input: &AssetTransferInput,
        sender: &Address,
        approvers: &[Address],
    ) -> (checked: Result<(OwnedAsset, OwnedAssetAddress), Stop>)
        requires
            self.wf(),
        ensures
            match checked {
                Ok((asset, address)) => {
                    &&& input_asset(self.ledger(), *input, *sender, approvers@) == Ok::<_, Stop>(
                        asset@,
                    )
                    &&& address@ == self.ledger().spent(*input)
                },
                Err(stop) => input_asset(self.ledger(), *input, *sender, approvers@) == Err::<
                    AssetView,
                    _,
                >(stop),
            },
    {
        let asset_type = input.prev_out.asset_type;
        let asset_address = OwnedAssetAddress::new(
            input.prev_out.transaction_hash,
            input.prev_out.index,
            self.shard_id,
        );
        let asset_scheme_address = match AssetSchemeAddress::from_hash(asset_type) {
            Some(address) => address,
            None => {
                return Err(refuse(TransactionError::AssetSchemeNotFound(asset_type)));
            },
        };
        let asset_scheme = match self.asset_scheme(&asset_scheme_address) {
            Ok(Some(scheme)) => scheme,
            Ok(None) => {
                return Err(refuse(TransactionError::AssetSchemeNotFound(asset_type)));
            },
            Err(error) => {
                return Err(fail_read(error));
            },
        };
        if let Some(approver) = &asset_scheme.approver {
            if !has_consent(approver, sender, approvers) {
                return Err(refuse(TransactionError::NotApproved(*approver)));
            }
        }
        match self.asset(&asset_address) {
            Ok(Some(asset)) => {
                if asset.amount() != input.prev_out.amount {
                    return Err(
                        refuse(
                            TransactionError::InvalidAssetAmount {
                                address: asset_address.hash(),
                                expected: asset.amount(),
                                got: input.prev_out.amount,
                            },
                        ),
                    );
                }
                if *asset.asset_type() != asset_type {
                    return Err(refuse(TransactionError::InvalidAssetType(asset_type)));
                }
                Ok((asset, asset_address))
            },
            Ok(None) => Err(refuse(TransactionError::AssetNotFound(asset_address.hash()))),
            Err(error) => Err(fail_read(error)),
        }
    }

    /// Finds out whether the scripts of an input have to be run before it may be spent, and gives
    /// the asset that they run for.
    fn input_script(
        &self,
        input: &AssetTransferInput,
        order: Option<H256>,
        burn: bool,
        sender: &Address,
        approvers: &[Address],
    ) -> (need: Result<Option<OwnedAsset>, Stop>)
        requires
            self.wf(),
        ensures
            script_need(self.ledger(), *input, order, burn, *sender, approvers@) == (match need {
                Ok(Some(asset)) => Ok::<_, Stop>(Some(run_of(asset@, *input, order, burn))),
                Ok(None) => Ok(None),
                Err(stop) => Err(stop),
            }),
    {
        let address = OwnedAssetAddress::new(
            input.prev_out.transaction_hash,
            input.prev_out.index,
            self.shard_id,
        );
        let asset = match self.asset(&address) {
            Ok(Some(asset)) => asset,
            Ok(None) => {
                return Err(refuse(TransactionError::AssetNotFound(address.hash())));
            },
            Err(error) => {
                return Err(fail_read(error));
            },
        };
        let asset_scheme_address = match AssetSchemeAddress::from_hash(input.prev_out.asset_type) {
            Some(address) => address,
            None => {
                return Err(Stop::OutOfDomain);
            },
        };
        let asset_scheme = match self.asset_scheme(&asset_scheme_address) {
            Ok(Some(scheme)) => scheme,
            Ok(None) => {
                return Err(Stop::OutOfDomain);
            },
            Err(error) => {
                return Err(fail_read(error));
            },
        };
        let lock_script_hash = script_hash(input.lock_script.as_slice());
        match need_scripts(
            &asset,
            &asset_scheme,
            order,
            burn,
            sender,
            approvers,
            lock_script_hash,
        ) {
            Ok(true) => Ok(Some(asset)),
            Ok(false) => Ok(None),
            Err(error) => Err(refuse(error)),
        }
    }

    /// Checks that an input may be spent, where `outcome` is what came of its scripts if they had
    /// to be run.
    fn check_input_script(
        &self,
        input: &AssetTransferInput,
        order: Option<H256>,
        burn: bool,
        sender: &Address,
        approvers: &[Address],
        outcome: &ScriptOutcome,
    ) -> (checked: Result<(), Stop>)
        requires
            self.wf(),
        ensures
            checked == script_check(
                self.ledger(),
                *input,
                order,
                burn,
                *sender,
                approvers@,
                *outcome,
            ),
    {
        match self.input_script(input, order, burn, sender, approvers) {
            Err(stop) => Err(stop),
            Ok(None) => Ok(()),
            Ok(Some(_)) => {
                let address = OwnedAssetAddress::new(
                    input.prev_out.transaction_hash,
                    input.prev_out.index,
                    self.shard_id,
                );
                match judge(address.hash(), outcome, burn) {
                    Ok(()) => Ok(()),
                    Err(error) => Err(refuse(error)),
                }
            },
        }
    }

    /// Takes the asset at an address away.
    fn kill_asset(&mut self, account: &OwnedAssetAddress)
        requires
            old(self).wf(),
        ensures
            final(self).wf(),
            final(self).same_base(old(self)),
            *final(final(self).cache) == *final(old(self).cache),
            final(self).ledger() == old(self).ledger().with_asset(account@, None),
    {
        self.cache.remove_asset(&account.hash());
    }

    /// Takes the scheme at an address away.
    fn kill_asset_scheme(&mut self, account: &AssetSchemeAddress)
        requires
            old(self).wf(),
        ensures
            final(self).wf(),
            final(self).same_base(old(self)),
            *final(final(self).cache) == *final(old(self).cache),
            final(self).ledger() == old(self).ledger().with_scheme(account@, None),
    {
        self.cache.remove_asset_scheme(&account.hash());
    }

    /// Puts a scheme at an address, in place of what is there.
    pub fn create_asset_scheme(
        &mut self,
        a: &AssetSchemeAddress,
        metadata: String,
        amount: u64,
        approver: Option<Address>,
        administrator: Option<Address>,
        pool: Vec<Asset>,
    ) -> (created: Result<AssetScheme, TrieError>)
        requires
            old(self).wf(),
        ensures
            final(self).wf(),
            final(self).same_base(old(self)),
            *final(final(self).cache) == *final(old(self).cache),
            match created {
                Ok(scheme) => {
                    &&& old(self).ledger().scheme(a@) is Ok
                    &&& scheme@ == (SchemeView {
                        metadata: metadata@,
                        amount,
                        approver,
                        administrator,
                        pool: pool@,
                    })
                    &&& final(self).ledger() == old(self).ledger().with_scheme(a@, Some(scheme@))
                },
                Err(error) => {
                    &&& old(self).ledger().scheme(a@) == Err::<Option<SchemeView>, _>(error)
                    &&& final(self).ledger() == old(self).ledger()
                },
            },
    {
        match self.asset_scheme(a) {
            Err(error) => Err(error),
            Ok(_) => {
                let scheme = AssetScheme::new(metadata, amount, approver, administrator, pool);
                let copy = scheme.clone();
                self.cache.set_scheme(a.hash(), Entry::Present(scheme));
                Ok(copy)
            },
        }
    }

    /// Puts an asset at an address, in place of what is there.
    pub fn create_asset(
        &mut self,
        a: &OwnedAssetAddress,
        asset_type: H256,
        lock_script_hash: H160,
        parameters: Vec<Vec<u8>>,
        amount: u64,
        order_hash: Option<H256>,
    ) -> (created: Result<OwnedAsset, TrieError>)
        requires
            old(self).wf(),
        ensures
            final(self).wf(),
            final(self).same_base(old(self)),
            *final(final(self).cache) == *final(old(self).cache),
            match created {
                Ok(asset) => {
                    &&& old(self).ledger().asset(a@) is Ok
                    &&& asset@ == (AssetView {
                        asset_type,
                        amount,
                        lock_script_hash,
                        parameters: byte_strings(parameters@),
                        order_hash,
                    })
                    &&& final(self).ledger() == old(self).ledger().with_asset(a@, Some(asset@))
                },
                Err(error) => {
                    &&& old(self).ledger().asset(a@) == Err::<Option<AssetView>, _>(error)
                    &&& final(self).ledger() == old(self).ledger()
                },
            },
    {
        match self.asset(a) {
            Err(error) => Err(error),
            Ok(_) => {
                let asset = OwnedAsset::new(
                    asset_type,
                    lock_script_hash,
                    parameters,
                    amount,
                    order_hash,
                );
                let copy = asset.clone();
                self.cache.set_asset(a.hash(), Entry::Present(asset));
                Ok(copy)
            },
        }
    }

    /// Mints a scheme and all of its assets.
    fn mint_asset(
        &mut self,
        transaction_hash: H256,
        metadata: &String,
        approver: &Option<Address>,
        administrator: &Option<Address>,
        output: &AssetMintOutput,
        sender: &Address,
        shard_users: &[Address],
        pool: Vec<Asset>,
    ) -> (done: Result<(), Stop>)
        requires
            old(self).wf(),
        ensures
            final(self).wf(),
            final(self).same_base(old(self)),
            *final(final(self).cache) == *final(old(self).cache),
            mint(
                old(self).ledger(),
                transaction_hash,
                metadata@,
                *approver,
                *administrator,
                *output,
                *sender,
                shard_users@,
                pool@,
            ) == (match done {
                Ok(()) => Ok(final(self).ledger()),
                Err(stop) => Err(stop),
            }),
            final(self).ledger() == mint_leaves(
                old(self).ledger(),
                transaction_hash,
                metadata@,
                *approver,
                *administrator,
                *output,
                *sender,
                shard_users@,
                pool@,
            ),
            done matches Err(Stop::Error(StateError::Transaction(_))) ==> final(self).ledger()
                == old(self).ledger(),
            done is Err && old(self).ledger().asset(
                asset_address(transaction_hash, 0, old(self).shard_id),
            ) is Ok ==> final(self).ledger() == old(self).ledger(),
    {
        if shard_users.len() > 0 && !contains_address(shard_users, sender) {
            return Err(refuse(TransactionError::InsufficientPermission));
        }
        let asset_scheme_address = AssetSchemeAddress::new(transaction_hash, self.shard_id);
        match self.asset_scheme(&asset_scheme_address) {
            Ok(Some(_)) => {
                return Err(refuse(TransactionError::AssetSchemeDuplicated(transaction_hash)));
            },
            Ok(None) => {},
            Err(error) => {
                return Err(fail_read(error));
            },
        }
        let amount = match output.amount {
            Some(amount) => amount,
            None => u64::MAX,
        };
        match self.create_asset_scheme(
            &asset_scheme_address,
            metadata.clone(),
            amount,
            *approver,
            *administrator,
            pool,
        ) {
            Ok(_) => {},
            Err(error) => {
                return Err(fail_read(error));
            },
        }
        let asset_address = OwnedAssetAddress::new(transaction_hash, 0, self.shard_id);
        match self.create_asset(
            &asset_address,
            asset_scheme_address.hash(),
            output.lock_script_hash,
            copy_byte_strings(output.parameters.as_slice()),
            amount,
            None,
        ) {
            Ok(_) => Ok(()),
            Err(error) => Err(fail_read(error)),
        }
    }

    /// Checks the scripts of the inputs and the burns of a transfer.
    fn check_scripts(
        &self,
        inputs: &Vec<AssetTransferInput>,
        burns: &Vec<AssetTransferInput>,
        orders: &Vec<OrderOnTransfer>,
        sender: &Address,
        approvers: &[Address],
        outcomes: &[ScriptOutcome],
    ) -> (checked: Result<(), Stop>)
        requires
            self.wf(),
            outcomes@.len() == inputs@.len() + burns@.len(),
        ensures
            checked == if !inputs_in_range(orders@, inputs@.len()) {
                Err::<(), _>(Stop::OutOfDomain)
            } else {
                scripts_check(
                    self.ledger(),
                    transfer_spendings(inputs@, burns@, orders@),
                    *sender,
                    approvers@,
                    outcomes@,
                    0,
                )
            },
    {
        let order_hashes = match input_orders(orders, inputs.len()) {
            Some(slots) => slots,
            None => {
                return Err(Stop::OutOfDomain);
            },
        };
        let ghost all = transfer_spendings(inputs@, burns@, orders@);
        let mut i: usize = 0;
        while i < inputs.len()
            invariant
                self.wf(),
                outcomes@.len() == inputs@.len() + burns@.len(),
                all == transfer_spendings(inputs@, burns@, orders@),
                inputs_in_range(orders@, inputs@.len()),
                order_hashes@.len() == inputs@.len(),
                forall|j: int|
                    0 <= j < inputs@.len() ==> #[trigger] order_hashes@[j] == order_of_input(
                        orders@,
                        orders@.len() as int,
                        j,
                    ),
                i <= inputs@.len(),
                scripts_check(self.ledger(), all, *sender, approvers@, outcomes@, 0)
                    == scripts_check(
                    self.ledger(),
                    all,
                    *sender,
                    approvers@,
                    outcomes@,
                    i as int,
                ),
            decreases inputs@.len() - i,
        {
            match self.check_input_script(
                &inputs[i],
                order_hashes[i],
                false,
                sender,
                approvers,
                &outcomes[i],
            ) {
                Ok(()) => {},
                Err(stop) => {
                    return Err(stop);
                },
            }
            i += 1;
        }
        let mut j: usize = 0;
        while j < burns.len()
            invariant
                self.wf(),
                outcomes@.len() == inputs@.len() + burns@.len(),
                all == transfer_spendings(inputs@, burns@, orders@),
                inputs_in_range(orders@, inputs@.len()),
                j <= burns@.len(),
                scripts_check(self.ledger(), all, *sender, approvers@, outcomes@, 0)
                    == scripts_check(
                    self.ledger(),
                    all,
                    *sender,
                    approvers@,
                    outcomes@,
                    inputs@.len() + j,
                ),
            decreases burns@.len() - j,
        {
            match self.check_input_script(
                &burns[j],
                None,
                true,
                sender,
                approvers,
                &outcomes[outcomes.len() - burns.len() + j],
            ) {
                Ok(()) => {},
                Err(stop) => {
                    return Err(stop);
                },
            }
            j += 1;
        }
        Ok(())
    }

    /// Checks that an order takes all of its origin outputs at once, or none.
    fn check_order(
        &self,
        order_tx: &OrderOnTransfer,
        inputs: &Vec<AssetTransferInput>,
    ) -> (count: Result<usize, Stop>)
        requires
            self.wf(),
            forall|i: int|
                0 <= i < order_tx.input_indices@.len() ==> #[trigger] order_tx.input_indices@[i]
                    < inputs@.len(),
        ensures
            origin_count(self.ledger(), *order_tx, inputs@, 0, 0) == (match count {
                Ok(n) => Ok(n as int),
                Err(stop) => Err(stop),
            }),
    {
        let mut counter: usize = 0;
        let mut k: usize = 0;
        while k < order_tx.input_indices.len()
            invariant
                self.wf(),
                forall|i: int|
                    0 <= i < order_tx.input_indices@.len()
                        ==> #[trigger] order_tx.input_indices@[i] < inputs@.len(),
                counter <= k <= order_tx.input_indices@.len(),
                origin_count(self.ledger(), *order_tx, inputs@, 0, 0) == origin_count(
                    self.ledger(),
                    *order_tx,
                    inputs@,
                    counter as int,
                    k as int,
                ),
            decreases order_tx.input_indices@.len() - k,
        {
            let input = &inputs[order_tx.input_indices[k]];
            let address = OwnedAssetAddress::new(
                input.prev_out.transaction_hash,
                input.prev_out.index,
                self.shard_id,
            );
            let asset = match self.asset(&address) {
                Ok(Some(asset)) => asset,
                Ok(None) => {
                    return Err(refuse(TransactionError::AssetNotFound(address.hash())));
                },
                Err(error) => {
                    return Err(fail_read(error));
                },
            };
            let under_order = match asset.order_hash {
                Some(order_hash) => order_hash == order_tx.order.hash,
                None => false,
            };
            if !under_order {
                if contains_out_point(order_tx.order.origin_outputs.as_slice(), &input.prev_out) {
                    counter += 1;
                } else {
                    return Err(
                        refuse(TransactionError::InvalidOriginOutputs(order_tx.order.hash)),
                    );
                }
            }
            k += 1;
        }
        Ok(counter)
    }

    /// Checks the orders on a transfer.
    fn check_orders(
        &self,
        orders: &Vec<OrderOnTransfer>,
        inputs: &Vec<AssetTransferInput>,
    ) -> (checked: Result<(), Stop>)
        requires
            self.wf(),
            inputs_in_range(orders@, inputs@.len()),
        ensures
            checked == orders_check(self.ledger(), orders@, inputs@, 0),
    {
        let mut k: usize = 0;
        while k < orders.len()
            invariant
                self.wf(),
                inputs_in_range(orders@, inputs@.len()),
                k <= orders@.len(),
                orders_check(self.ledger(), orders@, inputs@, 0) == orders_check(
                    self.ledger(),
                    orders@,
                    inputs@,
                    k as int,
                ),
            decreases orders@.len() - k,
        {
            let order = &orders[k].order;
            match self.check_order(&orders[k], inputs) {
                Err(stop) => {
                    return Err(stop);
                },
                Ok(counter) => {
                    if counter > 0 && counter != order.origin_outputs.len() {
                        return Err(refuse(TransactionError::InvalidOriginOutputs(order.hash)));
                    }
                },
            }
            k += 1;
        }
        Ok(())
    }

    /// Checks the assets of inputs and burns, and takes each away.
    fn consume_assets(
        &mut self,
        inputs: &Vec<AssetTransferInput>,
        burns: &Vec<AssetTransferInput>,
        sender: &Address,
        approvers: &[Address],
    ) -> (done: Result<(), Stop>)
        requires
            old(self).wf(),
        ensures
            final(self).wf(),
            final(self).same_base(old(self)),
            *final(final(self).cache) == *final(old(self).cache),
            consume(old(self).ledger(), inputs@ + burns@, *sender, approvers@, 0) == (match done {
                Ok(()) => Ok(final(self).ledger()),
                Err(stop) => Err(stop),
            }),
            final(self).ledger() == consume_leaves(
                old(self).ledger(),
                inputs@ + burns@,
                *sender,
                approvers@,
                0,
            ),
    {
        let ghost all = inputs@ + burns@;
        let mut i: usize = 0;
        while i < inputs.len()
            invariant
                self.wf(),
                self.same_base(old(self)),
                *final(self.cache) == *final(old(self).cache),
                all == inputs@ + burns@,
                i <= inputs@.len(),
                consume(old(self).ledger(), all, *sender, approvers@, 0) == consume(
                    self.ledger(),
                    all,
                    *sender,
                    approvers@,
                    i as int,
                ),
                consume_leaves(old(self).ledger(), all, *sender, approvers@, 0)
                    == consume_leaves(self.ledger(), all, *sender, approvers@, i as int),
            decreases inputs@.len() - i,
        {
            match self.check_input_asset(&inputs[i], sender, approvers) {
                Err(stop) => {
                    return Err(stop);
                },
                Ok((_, asset_address)) => {
                    self.kill_asset(&asset_address);
                },
            }
            i += 1;
        }
        let mut j: usize = 0;
        while j < burns.len()
            invariant
                self.wf(),
                self.same_base(old(self)),
                *final(self.cache) == *final(old(self).cache),
                all == inputs@ + burns@,
                j <= burns@.len(),
                consume(old(self).ledger(), all, *sender, approvers@, 0) == consume(
                    self.ledger(),
                    all,
                    *sender,
                    approvers@,
                    inputs@.len() + j,
                ),
                consume_leaves(old(self).ledger(), all, *sender, approvers@, 0)
                    == consume_leaves(
                    self.ledger(),
                    all,
                    *sender,
                    approvers@,
                    inputs@.len() + j,
                ),
            decreases burns@.len() - j,
        {
            match self.check_input_asset(&burns[j], sender, approvers) {
                Err(stop) => {
                    return Err(stop);
                },
                Ok((_, asset_address)) => {
                    self.kill_asset(&asset_address);
                },
            }
            j += 1;
        }
        Ok(())
    }

    /// Puts the assets of outputs at the addresses of a transaction.
    fn produce_assets(
        &mut self,
        transaction_hash: H256,
        outputs: &Vec<AssetTransferOutput>,
        order_hashes: &Vec<Option<H256>>,
    ) -> (done: Result<(), Stop>)
        requires
            old(self).wf(),
            order_hashes@.len() == outputs@.len(),
        ensures
            final(self).wf(),
            final(self).same_base(old(self)),
            *final(final(self).cache) == *final(old(self).cache),
            produce(old(self).ledger(), transaction_hash, outputs@, order_hashes@, 0) == (
            match done {
                Ok(()) => Ok(final(self).ledger()),
                Err(stop) => Err(stop),
            }),
            final(self).ledger() == produce_leaves(
                old(self).ledger(),
                transaction_hash,
                outputs@,
                order_hashes@,
                0,
            ),
            done matches Err(stop) ==> stop matches Stop::Error(StateError::Trie(_)),
    {
        let mut i: usize = 0;
        while i < outputs.len()
            invariant
                self.wf(),
                self.same_base(old(self)),
                *final(self.cache) == *final(old(self).cache),
                order_hashes@.len() == outputs@.len(),
                i <= outputs@.len(),
                produce(old(self).ledger(), transaction_hash, outputs@, order_hashes@, 0)
                    == produce(
                    self.ledger(),
                    transaction_hash,
                    outputs@,
                    order_hashes@,
                    i as int,
                ),
                produce_leaves(old(self).ledger(), transaction_hash, outputs@, order_hashes@, 0)
                    == produce_leaves(
                    self.ledger(),
                    transaction_hash,
                    outputs@,
                    order_hashes@,
                    i as int,
                ),
            decreases outputs@.len() - i,
        {
            let output = &outputs[i];
            let asset_address = OwnedAssetAddress::new(transaction_hash, i, self.shard_id);
            match self.create_asset(
                &asset_address,
                output.asset_type,
                output.lock_script_hash,
                copy_byte_strings(output.parameters.as_slice()),
                output.amount,
                order_hashes[i],
            ) {
                Ok(_) => {},
                Err(error) => {
                    return Err(fail_read(error));
                },
            }
            i += 1;
        }
        Ok(())
    }

    /// Spends inputs and burns, and makes outputs.
    fn transfer_asset(
        &mut self,
        transaction_hash: H256,
        sender: &Address,
        approvers: &[Address],
        burns: &Vec<AssetTransferInput>,
        inputs: &Vec<AssetTransferInput>,
        outputs: &Vec<AssetTransferOutput>,
        orders: &Vec<OrderOnTransfer>,
        outcomes: &[ScriptOutcome],
    ) -> (done: Result<(), Stop>)
        requires
            old(self).wf(),
            outcomes@.len() == inputs@.len() + burns@.len(),
        ensures
            final(self).wf(),
            final(self).same_base(old(self)),
            *final(final(self).cache) == *final(old(self).cache),
            transfer(
                old(self).ledger(),
                transaction_hash,
                burns@,
                inputs@,
                outputs@,
                orders@,
                *sender,
                approvers@,
                outcomes@,
            ) == (match done {
                Ok(()) => Ok(final(self).ledger()),
                Err(stop) => Err(stop),
            }),
            final(self).ledger() == transfer_leaves(
                old(self).ledger(),
                transaction_hash,
                burns@,
                inputs@,
                outputs@,
                orders@,
                *sender,
                approvers@,
                outcomes@,
            ),
    {
        match self.check_scripts(inputs, burns, orders, sender, approvers, outcomes) {
            Ok(()) => {},
            Err(stop) => {
                return Err(stop);
            },
        }
        match self.check_orders(orders, inputs) {
            Ok(()) => {},
            Err(stop) => {
                return Err(stop);
            },
        }
        let order_hashes = match output_orders(orders, outputs.len()) {
            Some(slots) => slots,
            None => {
                return Err(Stop::OutOfDomain);
            },
        };
        match self.consume_assets(inputs, burns, sender, approvers) {
            Ok(()) => {},
            Err(stop) => {
                return Err(stop);
            },
        }
        self.produce_assets(transaction_hash, outputs, &order_hashes)
    }

    /// Changes the metadata, the approver and the administrator of a scheme.
    fn change_asset_scheme(
        &mut self,
        sender: &Address,
        approvers: &[Address],
        asset_type: &H256,
        metadata: &String,
        approver: &Option<Address>,
        administrator: &Option<Address>,
    ) -> (done: Result<(), Stop>)
        requires
            old(self).wf(),
        ensures
            final(self).wf(),
            final(self).same_base(old(self)),
            *final(final(self).cache) == *final(old(self).cache),
            change_scheme(
                old(self).ledger(),
                *asset_type,
                metadata@,
                *approver,
                *administrator,
                *sender,
                approvers@,
            ) == (match done {
                Ok(()) => Ok(final(self).ledger()),
                Err(stop) => Err(stop),
            }),
            done is Err ==> final(self).ledger() == old(self).ledger(),
    {
        let asset_scheme_address = match AssetSchemeAddress::from_hash(*asset_type) {
            Some(address) => address,
            None => {
                return Err(refuse(TransactionError::AssetSchemeNotFound(*asset_type)));
            },
        };
        let mut asset_scheme = match self.asset_scheme(&asset_scheme_address) {
            Ok(Some(scheme)) => scheme,
            Ok(None) => {
                return Err(refuse(TransactionError::AssetSchemeNotFound(*asset_type)));
            },
            Err(error) => {
                return Err(fail_read(error));
            },
        };
        match &asset_scheme.administrator {
            None => {
                return Err(refuse(TransactionError::InsufficientPermission));
            },
            Some(current) => {
                if !has_consent(current, sender, approvers) {
                    return Err(refuse(TransactionError::InsufficientPermission));
                }
            },
        }
        asset_scheme.change_data(metadata.clone(), *approver, *administrator);
        self.cache.set_scheme(asset_scheme_address.hash(), Entry::Present(asset_scheme));
        Ok(())
    }

    /// Checks the inputs of a composition, takes each away and adds it up.
    fn gather_assets(
        &mut self,
        inputs: &Vec<AssetTransferInput>,
        sender: &Address,
        approvers: &[Address],
        outcomes: &[ScriptOutcome],
    ) -> (sum: Result<Vec<Asset>, Stop>)
        requires
            old(self).wf(),
            outcomes@.len() == inputs@.len(),
        ensures
            final(self).wf(),
            final(self).same_base(old(self)),
            *final(final(self).cache) == *final(old(self).cache),
            gather(
                Gathered { ledger: old(self).ledger(), sum: Seq::empty() },
                inputs@,
                *sender,
                approvers@,
                outcomes@,
                0,
            ) == (match sum {
                Ok(s) => Ok(Gathered { ledger: final(self).ledger(), sum: s@ }),
                Err(stop) => Err(stop),
            }),
            final(self).ledger() == gather_leaves(
                Gathered { ledger: old(self).ledger(), sum: Seq::empty() },
                inputs@,
                *sender,
                approvers@,
                outcomes@,
                0,
            ),
    {
        let mut sum: Vec<Asset> = Vec::new();
        let ghost start = Gathered { ledger: self.ledger(), sum: Seq::empty() };
        assert(sum@ =~= start.sum);
        let mut i: usize = 0;
        while i < inputs.len()
            invariant
                self.wf(),
                self.same_base(old(self)),
                *final(self.cache) == *final(old(self).cache),
                start == (Gathered { ledger: old(self).ledger(), sum: Seq::empty() }),
                outcomes@.len() == inputs@.len(),
                i <= inputs@.len(),
                gather(start, inputs@, *sender, approvers@, outcomes@, 0) == gather(
                    Gathered { ledger: self.ledger(), sum: sum@ },
                    inputs@,
                    *sender,
                    approvers@,
                    outcomes@,
                    i as int,
                ),
                gather_leaves(start, inputs@, *sender, approvers@, outcomes@, 0)
                    == gather_leaves(
                    Gathered { ledger: self.ledger(), sum: sum@ },
                    inputs@,
                    *sender,
                    approvers@,
                    outcomes@,
                    i as int,
                ),
            decreases inputs@.len() - i,
        {
            let input = &inputs[i];
            let asset_type = input.prev_out.asset_type;
            let asset_address = match self.check_input_asset(input, sender, approvers) {
                Ok((_, address)) => address,
                Err(stop) => {
                    return Err(stop);
                },
            };
            match self.check_input_script(input, None, false, sender, approvers, &outcomes[i]) {
                Ok(()) => {},
                Err(stop) => {
                    return Err(stop);
                },
            }
            let asset_scheme_address = match AssetSchemeAddress::from_hash(asset_type) {
                Some(address) => address,
                None => {
                    return Err(Stop::OutOfDomain);
                },
            };
            match self.asset_scheme(&asset_scheme_address) {
                Ok(Some(asset_scheme)) => {
                    if asset_scheme.is_centralized() {
                        return Err(refuse(TransactionError::CannotComposeCentralizedAsset));
                    }
                },
                Ok(None) => {
                    return Err(Stop::OutOfDomain);
                },
                Err(error) => {
                    return Err(fail_read(error));
                },
            }
            self.kill_asset(&asset_address);
            if !add_to_pool(&mut sum, asset_type, input.prev_out.amount) {
                return Err(Stop::OutOfDomain);
            }
            i += 1;
        }
        Ok(sum)
    }

    /// Mints a scheme whose pool is what the inputs add up to.
    fn compose_asset(
        &mut self,
        transaction_hash: H256,
        metadata: &String,
        approver: &Option<Address>,
        administrator: &Option<Address>,
        inputs: &Vec<AssetTransferInput>,
        output: &AssetMintOutput,
        sender: &Address,
        approvers: &[Address],
        shard_users: &[Address],
        outcomes: &[ScriptOutcome],
    ) -> (done: Result<(), Stop>)
        requires
            old(self).wf(),
            outcomes@.len() == inputs@.len(),
        ensures
            final(self).wf(),
            final(self).same_base(old(self)),
            *final(final(self).cache) == *final(old(self).cache),
            compose(
                old(self).ledger(),
                transaction_hash,
                metadata@,
                *approver,
                *administrator,
                inputs@,
                *output,
                *sender,
                shard_users@,
                approvers@,
                outcomes@,
            ) == (match done {
                Ok(()) => Ok(final(self).ledger()),
                Err(stop) => Err(stop),
            }),
            final(self).ledger() == compose_leaves(
                old(self).ledger(),
                transaction_hash,
                metadata@,
                *approver,
                *administrator,
                inputs@,
                *output,
                *sender,
                shard_users@,
                approvers@,
                outcomes@,
            ),
            inputs@.len() > 0 && !is_composable(
                old(self).ledger(),
                inputs@[0],
                *sender,
                approvers@,
                outcomes@[0],
            ) ==> done is Err && final(self).ledger() == old(self).ledger(),
    {
        let pool = match self.gather_assets(inputs, sender, approvers, outcomes) {
            Ok(sum) => sum,
            Err(stop) => {
                return Err(stop);
            },
        };
        self.mint_asset(
            transaction_hash,
            metadata,
            approver,
            administrator,
            output,
            sender,
            shard_users,
            pool,
        )
    }

    /// Checks that the outputs are what the scheme of a composed asset has in its pool, and gives
    /// the address of the scheme.
    fn check_pool(&self, asset_type: H256, outputs: &Vec<AssetTransferOutput>) -> (checked: Result<
        AssetSchemeAddress,
        Stop,
    >)
        requires
            self.wf(),
        ensures
            match checked {
                Ok(address) => {
                    &&& pool_check(self.ledger(), asset_type, outputs@) == Ok::<(), Stop>(())
                    &&& address@ == asset_type
                },
                Err(stop) => pool_check(self.ledger(), asset_type, outputs@) == Err::<(), _>(stop),
            },
    {
        let asset_scheme_address = match AssetSchemeAddress::from_hash(asset_type) {
            Some(address) => address,
            None => {
                return Err(refuse(TransactionError::AssetSchemeNotFound(asset_type)));
            },
        };
        let asset_scheme = match self.asset_scheme(&asset_scheme_address) {
            Ok(Some(scheme)) => scheme,
            Ok(None) => {
                return Err(refuse(TransactionError::AssetSchemeNotFound(asset_type)));
            },
            Err(error) => {
                return Err(fail_read(error));
            },
        };
        if asset_scheme.pool.len() == 0 {
            return Err(
                refuse(TransactionError::InvalidDecomposedInput { address: asset_type, got: 0 }),
            );
        }
        let sum = match tally_outputs(outputs.as_slice()) {
            Some(sum) => sum,
            None => {
                return Err(Stop::OutOfDomain);
            },
        };
        match match_pool(asset_scheme.pool.as_slice(), sum) {
            Ok(()) => Ok(asset_scheme_address),
            Err(error) => Err(refuse(error)),
        }
    }

    /// Takes a composed asset and its scheme away, and makes the assets of its pool again.
    fn decompose_asset(
        &mut self,
        transaction_hash: H256,
        input: &AssetTransferInput,
        outputs: &Vec<AssetTransferOutput>,
        sender: &Address,
        approvers: &[Address],
        outcome: &ScriptOutcome,
    ) -> (done: Result<(), Stop>)
        requires
            old(self).wf(),
        ensures
            final(self).wf(),
            final(self).same_base(old(self)),
            *final(final(self).cache) == *final(old(self).cache),
            decompose(
                old(self).ledger(),
                transaction_hash,
                *input,
                outputs@,
                *sender,
                approvers@,
                *outcome,
            ) == (match done {
                Ok(()) => Ok(final(self).ledger()),
                Err(stop) => Err(stop),
            }),
            final(self).ledger() == decompose_leaves(
                old(self).ledger(),
                transaction_hash,
                *input,
                outputs@,
                *sender,
                approvers@,
                *outcome,
            ),
            match done {
                Ok(()) => true,
                Err(Stop::Error(StateError::Trie(_))) => true,
                Err(_) => final(self).ledger() == old(self).ledger(),
            },
            done is Err && (forall|i: int|
                0 <= i < outputs@.len() ==> old(self).ledger().asset(
                    #[trigger] asset_address(transaction_hash, i, old(self).shard_id),
                ) is Ok) ==> final(self).ledger() == old(self).ledger(),
    {
        let asset_scheme_address = match self.check_pool(input.prev_out.asset_type, outputs) {
            Ok(address) => address,
            Err(stop) => {
                return Err(stop);
            },
        };
        let spent_address = match self.check_input_asset(input, sender, approvers) {
            Ok((_, address)) => address,
            Err(stop) => {
                return Err(stop);
            },
        };
        match self.check_input_script(input, None, false, sender, approvers, outcome) {
            Ok(()) => {},
            Err(stop) => {
                return Err(stop);
            },
        }
        self.kill_asset(&spent_address);
        self.kill_asset_scheme(&asset_scheme_address);
        let order_hashes = empty_slots(outputs.len());
        proof {
            let before = old(self).ledger();
            if forall|i: int|
                0 <= i < outputs@.len() ==> before.asset(
                    #[trigger] asset_address(transaction_hash, i, before.shard_id),
                ) is Ok {
                assert forall|i: int| 0 <= i < outputs@.len() implies self.ledger().asset(
                    #[trigger] asset_address(transaction_hash, i, before.shard_id),
                ) is Ok by {
                    assert(before.asset(asset_address(transaction_hash, i, before.shard_id)) is Ok);
                }
                lemma_produce_succeeds(
                    self.ledger(),
                    transaction_hash,
                    outputs@,
                    order_hashes@,
                    0,
                );
            }
        }
        self.produce_assets(transaction_hash, outputs, &order_hashes)
    }

    /// Makes wrapped native coin, and its scheme where there is none yet.
    fn wrap_ccc(&mut self, parcel_hash: &H256, output: &AssetWrapCCCOutput) -> (done: Result<
        (),
        Stop,
    >)
        requires
            old(self).wf(),
        ensures
            final(self).wf(),
            final(self).same_base(old(self)),
            *final(final(self).cache) == *final(old(self).cache),
            wrap(old(self).ledger(), *parcel_hash, *output) == (match done {
                Ok(()) => Ok(final(self).ledger()),
                Err(stop) => Err(stop),
            }),
            final(self).ledger() == wrap_leaves(old(self).ledger(), *parcel_hash, *output),
    {
        let asset_scheme_address = AssetSchemeAddress::new_with_zero_suffix(self.shard_id);
        match self.asset_scheme(&asset_scheme_address) {
            Ok(Some(_)) => {},
            Ok(None) => {
                let metadata = wrapped_metadata(self.shard_id);
                let created = self.create_asset_scheme(
                    &asset_scheme_address,
                    metadata,
                    u64::MAX,
                    None,
                    None,
                    Vec::new(),
                );
                assert(created is Ok);
            },
            Err(error) => {
                return Err(fail_read(error));
            },
        }
        let asset_address = OwnedAssetAddress::new(*parcel_hash, 0, self.shard_id);
        match self.create_asset(
            &asset_address,
            asset_scheme_address.hash(),
            output.lock_script_hash,
            copy_byte_strings(output.parameters.as_slice()),
            output.amount,
            None,
        ) {
            Ok(_) => Ok(()),
            Err(error) => Err(fail_read(error)),
        }
    }

    /// Takes wrapped native coin away.
    fn unwrap_ccc(
        &mut self,
        sender: &Address,
        burn: &AssetTransferInput,
        outcome: &ScriptOutcome,
    ) -> (done: Result<(), Stop>)
        requires
            old(self).wf(),
        ensures
            final(self).wf(),
            final(self).same_base(old(self)),
            *final(final(self).cache) == *final(old(self).cache),
            unwrap(old(self).ledger(), *burn, *sender, *outcome) == (match done {
                Ok(()) => Ok(final(self).ledger()),
                Err(stop) => Err(stop),
            }),
            done is Err ==> final(self).ledger() == old(self).ledger(),
    {
        // Wrapped native coin has no approvers.
        let approvers: [Address; 0] = [];
        assert(approvers@ =~= Seq::empty());
        match self.check_input_script(burn, None, true, sender, approvers.as_slice(), outcome) {
            Ok(()) => {},
            Err(stop) => {
                return Err(stop);
            },
        }
        match self.check_input_asset(burn, sender, approvers.as_slice()) {
            Ok((_, asset_address)) => {
                self.kill_asset(&asset_address);
                Ok(())
            },
            Err(stop) => Err(stop),
        }
    }

    /// Does what a transaction asks for. Where it stops early, the changes made so far stay.
    fn apply_internal(
        &mut self,
        transaction: &InnerTransaction,
        sender: &Address,
        shard_users: &[Address],
        approvers: &[Address],
        outcomes: &[ScriptOutcome],
    ) -> (done: Result<(), Stop>)
        requires
            old(self).wf(),
            outcomes@.len() == spendings(*transaction).len(),
        ensures
            final(self).wf(),
            final(self).same_base(old(self)),
            *final(final(self).cache) == *final(old(self).cache),
            applied(
                old(self).ledger(),
                *transaction,
                *sender,
                shard_users@,
                approvers@,
                outcomes@,
            ) == (match done {
                Ok(()) => Ok(final(self).ledger()),
                Err(stop) => Err(stop),
            }),
            final(self).ledger() == applied_leaves(
                old(self).ledger(),
                *transaction,
                *sender,
                shard_users@,
                approvers@,
                outcomes@,
            ),
    {
        match transaction {
            InnerTransaction::General(transaction) => match transaction {
                Transaction::AssetMint { hash, metadata, approver, administrator, output } => {
                    let pool: Vec<Asset> = Vec::new();
                    assert(pool@ =~= Seq::empty());
                    self.mint_asset(
                        *hash,
                        metadata,
                        approver,
                        administrator,
                        output,
                        sender,
                        shard_users,
                        pool,
                    )
                },
                Transaction::AssetTransfer { hash, burns, inputs, outputs, orders } => {
                    self.transfer_asset(
                        *hash,
                        sender,
                        approvers,
                        burns,
                        inputs,
                        outputs,
                        orders,
                        outcomes,
                    )
                },
                Transaction::AssetSchemeChange {
                    hash: _,
                    asset_type,
                    metadata,
                    approver,
                    administrator,
                } => {
                    self.change_asset_scheme(
                        sender,
                        approvers,
                        asset_type,
                        metadata,
                        approver,
                        administrator,
                    )
                },
                Transaction::AssetCompose {
                    hash,
                    metadata,
                    approver,
                    administrator,
                    inputs,
                    output,
                } => {
                    self.compose_asset(
                        *hash,
                        metadata,
                        approver,
                        administrator,
                        inputs,
                        output,
                        sender,
                        approvers,
                        shard_users,
                        outcomes,
                    )
                },
                Transaction::AssetDecompose { hash, input, outputs } => {
                    self.decompose_asset(*hash, input, outputs, sender, approvers, &outcomes[0])
                },
                Transaction::AssetUnwrapCCC { hash: _, burn } => {
                    self.unwrap_ccc(sender, burn, &outcomes[0])
                },
            },
            InnerTransaction::AssetWrapCCC { parcel_hash, output } => {
                self.wrap_ccc(parcel_hash, output)
            },
        }
    }
}

impl<'db> ShardLevelState<'db> {
    /// Sets a checkpoint.
    pub fn create_checkpoint(&mut self, id: CheckpointId)
        requires
            old(self).wf(),
        ensures
            final(self).wf(),
            final(self).db@ == old(self).db@,
            final(self).root == old(self).root,
            final(self).shard_id == old(self).shard_id,
            final(self).id_of_checkpoints@ == old(self).id_of_checkpoints@.push(id),
            final(self).cache@ == old(self).cache@.checkpointed(),
            *final(final(self).cache) == *final(old(self).cache),
    {
        self.id_of_checkpoints.push(id);
        self.cache.checkpoint();
    }

    /// Gives the last checkpoint up and keeps the changes made since.
    pub fn discard_checkpoint(&mut self, id: CheckpointId)
        requires
            old(self).wf(),
            old(self).id_of_checkpoints@.len() > 0,
            old(self).id_of_checkpoints@.last() == id,
        ensures
            final(self).wf(),
            final(self).db@ == old(self).db@,
            final(self).root == old(self).root,
            final(self).shard_id == old(self).shard_id,
            final(self).id_of_checkpoints@ == old(self).id_of_checkpoints@.drop_last(),
            final(self).cache@ == old(self).cache@.discarded(),
            *final(final(self).cache) == *final(old(self).cache),
    {
        let _ = self.id_of_checkpoints.pop();
        self.cache.discard_checkpoint();
    }

    /// Takes all changes back to the last checkpoint, and gives it up.
    pub fn revert_to_checkpoint(&mut self, id: CheckpointId)
        requires
            old(self).wf(),
            old(self).id_of_checkpoints@.len() > 0,
            old(self).id_of_checkpoints@.last() == id,
        ensures
            final(self).wf(),
            final(self).db@ == old(self).db@,
            final(self).root == old(self).root,
            final(self).shard_id == old(self).shard_id,
            final(self).id_of_checkpoints@ == old(self).id_of_checkpoints@.drop_last(),
            final(self).cache@ == old(self).cache@.reverted(),
            *final(final(self).cache) == *final(old(self).cache),
    {
        let _ = self.id_of_checkpoints.pop();
        self.cache.revert_to_checkpoint();
    }

    /// Applies a transaction, or leaves the state as it was. `outcomes` holds what came of the
    /// scripts of each spending; one that did not have to be run may hold anything.
    pub fn apply(
        &mut self,
        transaction: &InnerTransaction,
        sender: &Address,
        shard_users: &[Address],
        approvers: &[Address],
        outcomes: &[ScriptOutcome],
    ) -> (result: StateResult<Invoice>)
        requires
            old(self).wf(),
            outcomes@.len() == spendings(*transaction).len(),
            applied(
                old(self).ledger(),
                *transaction,
                *sender,
                shard_users@,
                approvers@,
                outcomes@,
            ) != Err::<Ledger, _>(Stop::OutOfDomain),
        ensures
            final(self).wf(),
            final(self).same_base(old(self)),
            *final(final(self).cache) == *final(old(self).cache),
            match applied(
                old(self).ledger(),
                *transaction,
                *sender,
                shard_users@,
                approvers@,
                outcomes@,
            ) {
                Ok(ledger) => result == Ok::<_, StateError>(Invoice::Success)
                    && final(self).ledger() == ledger,
                Err(Stop::Error(StateError::Transaction(error))) => result == Ok::<_, StateError>(
                    Invoice::Failure(error),
                ) && final(self).ledger() == old(self).ledger(),
                Err(Stop::Error(error)) => result == Err::<Invoice, _>(error)
                    && final(self).ledger() == old(self).ledger(),
                Err(Stop::OutOfDomain) => false,
            },
    {
        self.create_checkpoint(TRANSACTION_CHECKPOINT);
        let done = self.apply_internal(transaction, sender, shard_users, approvers, outcomes);
        assert(self.id_of_checkpoints@.drop_last() =~= old(self).id_of_checkpoints@);
        assert(self.cache@.saved.drop_last() =~= old(self).cache@.saved);
        match done {
            Ok(()) => {
                self.discard_checkpoint(TRANSACTION_CHECKPOINT);
                Ok(Invoice::Success)
            },
            Err(stop) => {
                self.revert_to_checkpoint(TRANSACTION_CHECKPOINT);
                match stop {
                    Stop::Error(StateError::Transaction(error)) => Ok(Invoice::Failure(error)),
                    Stop::Error(error) => Err(error),
                    Stop::OutOfDomain => vstd::pervasive::unreached(),
                }
            },
        }
    }

    /// Says whether a transaction can be applied or refused here. The state stays as it was.
    fn admits(
        &mut self,
        transaction: &InnerTransaction,
        sender: &Address,
        shard_users: &[Address],
        approvers: &[Address],
        outcomes: &[ScriptOutcome],
    ) -> (yes: bool)
        requires
            old(self).wf(),
            outcomes@.len() == spendings(*transaction).len(),
        ensures
            final(self).wf(),
            final(self).same_base(old(self)),
            *final(final(self).cache) == *final(old(self).cache),
            final(self).ledger() == old(self).ledger(),
            yes == (applied(
                old(self).ledger(),
                *transaction,
                *sender,
                shard_users@,
                approvers@,
                outcomes@,
            ) != Err::<Ledger, _>(Stop::OutOfDomain)),
    {
        self.create_checkpoint(TRANSACTION_CHECKPOINT);
        let done = self.apply_internal(transaction, sender, shard_users, approvers, outcomes);
        assert(self.id_of_checkpoints@.drop_last() =~= old(self).id_of_checkpoints@);
        assert(self.cache@.saved.drop_last() =~= old(self).cache@.saved);
        self.revert_to_checkpoint(TRANSACTION_CHECKPOINT);
        match done {
            Err(Stop::OutOfDomain) => false,
            _ => true,
        }
    }

    /// Applies a transaction, or leaves the state as it was. Where the number of outcomes is not
    /// that of the spendings, or nothing is defined for the transaction, the answer is `None`.
    pub fn try_apply(
        &mut self,
        transaction: &InnerTransaction,
        sender: &Address,
        shard_users: &[Address],
        approvers: &[Address],
        outcomes: &[ScriptOutcome],
    ) -> (result: Option<StateResult<Invoice>>)
        requires
            old(self).wf(),
        ensures
            final(self).wf(),
            final(self).same_base(old(self)),
            *final(final(self).cache) == *final(old(self).cache),
            outcomes@.len() != spendings(*transaction).len() ==> result is None
                && final(self).ledger() == old(self).ledger(),
            outcomes@.len() == spendings(*transaction).len() ==> match applied(
                old(self).ledger(),
                *transaction,
                *sender,
                shard_users@,
                approvers@,
                outcomes@,
            ) {
                Ok(ledger) => result == Some(Ok::<_, StateError>(Invoice::Success))
                    && final(self).ledger() == ledger,
                Err(Stop::Error(StateError::Transaction(error))) => result == Some(
                    Ok::<_, StateError>(Invoice::Failure(error)),
                ) && final(self).ledger() == old(self).ledger(),
                Err(Stop::Error(error)) => result == Some(Err::<Invoice, _>(error))
                    && final(self).ledger() == old(self).ledger(),
                Err(Stop::OutOfDomain) => result is None && final(self).ledger() == old(
                    self,
                ).ledger(),
            },
    {
        if !counts_spendings(transaction, outcomes.len()) {
            return None;
        }
        if self.admits(transaction, sender, shard_users, approvers, outcomes) {
            Some(self.apply(transaction, sender, shard_users, approvers, outcomes))
        } else {
            None
        }
    }

    /// What has to be run for one spending, if anything.
    fn ask(
        &self,
        input: &AssetTransferInput,
        order: Option<H256>,
        burn: bool,
        sender: &Address,
        approvers: &[Address],
    ) -> (run: Option<ScriptRun>)
        requires
            self.wf(),
        ensures
            match run {
                Some(r) => script_need(self.ledger(), *input, order, burn, *sender, approvers@)
                    == Ok::<_, Stop>(Some(r@)),
                None => {
                    let need = script_need(
                        self.ledger(),
                        *input,
                        order,
                        burn,
                        *sender,
                        approvers@,
                    );
                    need is Err || need == Ok::<_, Stop>(None::<ScriptRunView>)
                },
            },
    {
        match self.input_script(input, order, burn, sender, approvers) {
            Ok(Some(asset)) => Some(script_run(&asset, input, order, burn)),
            _ => None,
        }
    }

    /// Says what has to be run for each spending of a transaction before it is applied.
    pub fn script_runs(
        &self,
        transaction: &InnerTransaction,
        sender: &Address,
        approvers: &[Address],
    ) -> (runs: Vec<Option<ScriptRun>>)
        requires
            self.wf(),
        ensures
            runs@.len() == spendings(*transaction).len(),
            forall|k: int|
                0 <= k < runs@.len() ==> asked(
                    self.ledger(),
                    *transaction,
                    *sender,
                    approvers@,
                    k,
                ) == (match #[trigger] runs@[k] {
                    Some(run) => Some(run@),
                    None => None,
                }),
    {
        let mut runs: Vec<Option<ScriptRun>> = Vec::new();
        match transaction {
            InnerTransaction::General(
                Transaction::AssetTransfer { hash: _, burns, inputs, outputs: _, orders },
            ) => {
                let order_hashes = input_orders(orders, inputs.len());
                let mut i: usize = 0;
                while i < inputs.len()
                    invariant
                        self.wf(),
                        *transaction matches InnerTransaction::General(
                            Transaction::AssetTransfer { burns: b, inputs: n, orders: o, .. },
                        ) && *burns == b && *inputs == n && *orders == o,
                        match order_hashes {
                            Some(s) => {
                                &&& inputs_in_range(orders@, inputs@.len())
                                &&& s@.len() == inputs@.len()
                                &&& forall|j: int|
                                    0 <= j < inputs@.len() ==> #[trigger] s@[j] == order_of_input(
                                        orders@,
                                        orders@.len() as int,
                                        j,
                                    )
                            },
                            None => !inputs_in_range(orders@, inputs@.len()),
                        },
                        i <= inputs@.len(),
                        runs@.len() == i,
                        forall|k: int|
                            0 <= k < i ==> asked(
                                self.ledger(),
                                *transaction,
                                *sender,
                                approvers@,
                                k,
                            ) == (match #[trigger] runs@[k] {
                                Some(run) => Some(run@),
                                None => None,
                            }),
                    decreases inputs@.len() - i,
                {
                    let run = match &order_hashes {
                        Some(slots) => self.ask(&inputs[i], slots[i], false, sender, approvers),
                        None => None,
                    };
                    runs.push(run);
                    i += 1;
                }
                let mut j: usize = 0;
                while j < burns.len()
                    invariant
                        self.wf(),
                        *transaction matches InnerTransaction::General(
                            Transaction::AssetTransfer { burns: b, inputs: n, orders: o, .. },
                        ) && *burns == b && *inputs == n && *orders == o,
                        (order_hashes is Some) == inputs_in_range(orders@, inputs@.len()),
                        j <= burns@.len(),
                        runs@.len() == inputs@.len() + j,
                        forall|k: int|
                            0 <= k < runs@.len() ==> asked(
                                self.ledger(),
                                *transaction,
                                *sender,
                                approvers@,
                                k,
                            ) == (match #[trigger] runs@[k] {
                                Some(run) => Some(run@),
                                None => None,
                            }),
                    decreases burns@.len() - j,
                {
                    let run = if order_hashes.is_some() {
                        self.ask(&burns[j], None, true, sender, approvers)
                    } else {
                        None
                    };
                    runs.push(run);
                    j += 1;
                }
            },
            InnerTransaction::General(
                Transaction::AssetCompose {
                    hash: _,
                    metadata: _,
                    approver: _,
                    administrator: _,
                    inputs,
                    output: _,
                },
            ) => {
                let mut i: usize = 0;
                while i < inputs.len()
                    invariant
                        self.wf(),
                        *transaction matches InnerTransaction::General(
                            Transaction::AssetCompose { inputs: n, .. },
                        ) && *inputs == n,
                        i <= inputs@.len(),
                        runs@.len() == i,
                        forall|k: int|
                            0 <= k < i ==> asked(
                                self.ledger(),
                                *transaction,
                                *sender,
                                approvers@,
                                k,
                            ) == (match #[trigger] runs@[k] {
                                Some(run) => Some(run@),
                                None => None,
                            }),
                    decreases inputs@.len() - i,
                {
                    let run = self.ask(&inputs[i], None, false, sender, approvers);
                    runs.push(run);
                    i += 1;
                }
            },
            InnerTransaction::General(
                Transaction::AssetDecompose { hash: _, input, outputs: _ },
            ) => {
                runs.push(self.ask(input, None, false, sender, approvers));
            },
            InnerTransaction::General(Transaction::AssetUnwrapCCC { hash: _, burn }) => {
                let approvers: [Address; 0] = [];
                assert(approvers@ =~= Seq::empty());
                runs.push(self.ask(burn, None, true, sender, approvers.as_slice()));
            },
            _ => {},
        }
        runs
    }
}

/// Says whether a transaction has this many spendings.
pub fn counts_spendings(transaction: &InnerTransaction, count: usize) -> (yes: bool)
    ensures
        yes == (count == spendings(*transaction).len()),
{
    match transaction {
        InnerTransaction::General(
            Transaction::AssetTransfer { hash: _, burns, inputs, outputs: _, orders: _ },
        ) => count >= inputs.len() && count - inputs.len() == burns.len(),
        InnerTransaction::General(
            Transaction::AssetCompose {
                hash: _,
                metadata: _,
                approver: _,
                administrator: _,
                inputs,
                output: _,
            },
        ) => count == inputs.len(),
        InnerTransaction::General(Transaction::AssetDecompose { .. }) => count == 1,
        InnerTransaction::General(Transaction::AssetUnwrapCCC { .. }) => count == 1,
        _ => count == 0,
    }
}

} // verus!
